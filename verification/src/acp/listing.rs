//! Listing stored sessions, page by page.

use crate::acp::error::{malformed, AcpErrorView, AcpServerError};
use crate::acp::handler::{dirs_key, read_stored_cwd, stored_cwd, AcpSessionHandler};
use crate::acp::path::{may_be_same_path, same_path, SessionPath};
use crate::json::{lookup, Json, JsonObject, JsonView};
use crate::text::{
    decimal, decimal_text, law_decimal_reads_back, parse_usize, texts, unsigned_value,
};
use vstd::prelude::*;
use vstd::string::*;

verus! {

/// How many sessions are looked at for one page.
pub const PAGE_SIZE: usize = 50;

/// What the store of sessions is asked for: one session more than a page
/// holds, which tells whether there is another page.
#[derive(Debug)]
pub struct ListRequest {
    pub app_name: String,
    pub user_id: String,
    pub limit: usize,
    pub offset: usize,
}

/// A stored session. `updated_at` is the time of its last change, in words.
pub struct StoredSession {
    pub id: String,
    pub state: JsonObject,
    pub updated_at: String,
}

/// What a client is told about a session.
#[derive(Debug)]
pub struct SessionInfo {
    pub session_id: String,
    pub cwd: String,
    pub additional_directories: Vec<String>,
    pub updated_at: String,
}

#[verifier::ext_equal]
pub struct SessionInfoView {
    pub session_id: Seq<char>,
    pub cwd: Seq<char>,
    pub additional_directories: Seq<Seq<char>>,
    pub updated_at: Seq<char>,
}

impl View for SessionInfo {
    type V = SessionInfoView;

    open spec fn view(&self) -> SessionInfoView {
        SessionInfoView {
            session_id: self.session_id@,
            cwd: self.cwd@,
            additional_directories: texts(self.additional_directories@),
            updated_at: self.updated_at@,
        }
    }
}

pub open spec fn infos_view(infos: Seq<SessionInfo>) -> Seq<SessionInfoView> {
    Seq::new(infos.len(), |i: int| infos[i]@)
}

/// A page of sessions, and where the next one starts, where there is one.
#[derive(Debug)]
pub struct SessionPage {
    pub sessions: Vec<SessionInfo>,
    pub next_cursor: Option<String>,
}

#[verifier::ext_equal]
pub struct SessionPageView {
    pub sessions: Seq<SessionInfoView>,
    pub next_cursor: Option<Seq<char>>,
}

impl View for SessionPage {
    type V = SessionPageView;

    open spec fn view(&self) -> SessionPageView {
        SessionPageView {
            sessions: infos_view(self.sessions@),
            next_cursor: crate::text::opt_text(self.next_cursor),
        }
    }
}

/// The place at which a page starts.
pub open spec fn cursor_result(cursor: Option<Seq<char>>) -> Result<nat, AcpErrorView> {
    match cursor {
        None => Ok(0),
        Some(c) => match unsigned_value(c) {
            Some(n) => if n <= usize::MAX {
                Ok(n)
            } else {
                malformed("invalid session cursor"@)
            },
            None => malformed("invalid session cursor"@),
        },
    }
}

/// Reads the place at which a page starts.
pub fn read_cursor(cursor: Option<&str>) -> (r: Result<usize, AcpServerError>)
    ensures
        match r {
            Ok(n) => cursor_result(opt_str(cursor)) == Ok::<nat, AcpErrorView>(n as nat),
            Err(e) => cursor_result(opt_str(cursor)) == Err::<nat, AcpErrorView>(e@),
        },
{
    match cursor {
        None => Ok(0),
        Some(c) => match parse_usize(c) {
            Some(n) => Ok(n),
            None => Err(AcpServerError::MalformedMessage("invalid session cursor".to_owned())),
        },
    }
}

pub open spec fn opt_str(s: Option<&str>) -> Option<Seq<char>> {
    match s {
        Some(t) => Some(t@),
        None => None,
    }
}

/// Every item is a string.
pub open spec fn all_strings(items: Seq<JsonView>) -> bool {
    forall|i: int| 0 <= i < items.len() ==> (#[trigger] items[i]) is Str
}

/// The further directories that a session was stored with: none, where what is
/// stored is not a list of strings.
pub open spec fn stored_dirs(state: Seq<(Seq<char>, JsonView)>) -> Seq<Seq<char>> {
    match lookup(state, dirs_key()) {
        Some(JsonView::Array(items)) => if all_strings(items) {
            Seq::new(items.len(), |i: int| items[i]->Str_0)
        } else {
            Seq::empty()
        },
        _ => Seq::empty(),
    }
}

fn read_dirs(state: &JsonObject) -> (dirs: Vec<String>)
    ensures
        texts(dirs@) == stored_dirs(state@),
{
    let mut dirs: Vec<String> = Vec::new();
    match state.get("acp:additional_directories") {
        Some(Json::Array(items)) => {
            let ghost all = (Json::Array(*items))@->Array_0;
            let mut i: usize = 0;
            while i < items.len()
                invariant
                    i <= items@.len(),
                    all == (Json::Array(*items))@->Array_0,
                    all.len() == items@.len(),
                    lookup(state@, dirs_key()) == Some(JsonView::Array(all)),
                    dirs@.len() == i,
                    forall|k: int|
                        0 <= k < i ==> all[k] == JsonView::Str((#[trigger] dirs@[k])@),
                decreases items@.len() - i,
            {
                let item: &Json = &items[i];
                assert(item@ == all[i as int]);
                match item {
                    Json::Str(s) => {
                        assert(item@ == JsonView::Str(s@));
                        dirs.push(s.clone());
                    },
                    _ => {
                        let none: Vec<String> = Vec::new();
                        assert(!(item@ is Str));
                        assert(texts(none@) =~= stored_dirs(state@));
                        return none;
                    },
                }
                i += 1;
            }
            assert(all_strings(all)) by {
                assert forall|k: int| 0 <= k < all.len() implies (#[trigger] all[k]) is Str by {
                    assert(all[k] == JsonView::Str(dirs@[k]@));
                }
            }
            assert(texts(dirs@) =~= stored_dirs(state@));
            dirs
        },
        _ => {
            assert(texts(dirs@) =~= stored_dirs(state@));
            dirs
        },
    }
}

/// The working directory that is shown for a session: the root, where none is
/// stored.
pub open spec fn shown_cwd(state: Seq<(Seq<char>, JsonView)>) -> Seq<char> {
    match stored_cwd(state) {
        Some(c) => c,
        None => "/"@,
    }
}

pub open spec fn info_of(s: StoredSession) -> SessionInfoView {
    SessionInfoView {
        session_id: s.id@,
        cwd: shown_cwd(s.state@),
        additional_directories: stored_dirs(s.state@),
        updated_at: s.updated_at@,
    }
}

/// The sessions among the first `n` that are kept, in order.
pub open spec fn kept_infos(sessions: Seq<StoredSession>, keep: Seq<bool>, n: nat) -> Seq<
    SessionInfoView,
>
    decreases n,
{
    if n == 0 {
        Seq::empty()
    } else {
        let before = kept_infos(sessions, keep, (n - 1) as nat);
        if keep[n - 1] {
            before.push(info_of(sessions[n - 1]))
        } else {
            before
        }
    }
}

/// How many of the sessions that were read belong to the page.
pub open spec fn page_len(sessions: nat) -> nat {
    if sessions <= PAGE_SIZE {
        sessions
    } else {
        PAGE_SIZE as nat
    }
}

/// The page that starts at `offset`, given the sessions that were read from
/// there on and which of them are kept.
pub open spec fn page_of(offset: nat, sessions: Seq<StoredSession>, keep: Seq<bool>) -> SessionPageView {
    SessionPageView {
        sessions: kept_infos(sessions, keep, page_len(sessions.len())),
        next_cursor: if sessions.len() > PAGE_SIZE {
            Some(decimal(offset + PAGE_SIZE as nat))
        } else {
            None
        },
    }
}

fn shown<'a>(state: &'a JsonObject) -> (c: &'a str)
    ensures
        c@ == shown_cwd(state@),
{
    match read_stored_cwd(state) {
        Some(c) => c,
        None => "/",
    }
}

/// Makes a page, given which of the sessions are kept.
pub fn list_page(offset: usize, sessions: &Vec<StoredSession>, keep: &Vec<bool>) -> (page:
    SessionPage)
    requires
        keep@.len() == sessions@.len(),
        sessions@.len() > PAGE_SIZE ==> offset + PAGE_SIZE <= usize::MAX,
    ensures
        page@ == page_of(offset as nat, sessions@, keep@),
{
    let more: bool = sessions.len() > PAGE_SIZE;
    let n: usize = if more {
        PAGE_SIZE
    } else {
        sessions.len()
    };
    let mut infos: Vec<SessionInfo> = Vec::new();
    let mut i: usize = 0;
    assert(infos_view(infos@) =~= Seq::<SessionInfoView>::empty());
    while i < n
        invariant
            i <= n <= sessions@.len(),
            keep@.len() == sessions@.len(),
            infos_view(infos@) == kept_infos(sessions@, keep@, i as nat),
        decreases n - i,
    {
        if keep[i] {
            let ghost before = infos_view(infos@);
            let info = SessionInfo {
                session_id: sessions[i].id.clone(),
                cwd: shown(&sessions[i].state).to_owned(),
                additional_directories: read_dirs(&sessions[i].state),
                updated_at: sessions[i].updated_at.clone(),
            };
            assert(info@ =~= info_of(sessions@[i as int]));
            infos.push(info);
            assert(infos_view(infos@) =~= before.push(info_of(sessions@[i as int])));
        }
        i += 1;
    }
    let next_cursor: Option<String> = if more {
        Some(decimal_text((offset + PAGE_SIZE) as u64))
    } else {
        None
    };
    SessionPage { sessions: infos, next_cursor }
}

/// `kept` can be the answer to whether a filter lets a session through. It does
/// without a filter, and where the session is shown with just that directory;
/// it does not where the parts of the two paths differ. In between, where one
/// directory is spelt in two ways, the host decides.
pub open spec fn passes(filter: Option<Seq<char>>, session: StoredSession, kept: bool) -> bool {
    match filter {
        None => kept,
        Some(f) => (f == shown_cwd(session.state@) ==> kept) && (kept ==> may_be_same_path(
            f,
            shown_cwd(session.state@),
        )),
    }
}

/// `keep` can tell which sessions a filter lets through.
pub open spec fn filter_answer(
    sessions: Seq<StoredSession>,
    filter: Option<Seq<char>>,
    keep: Seq<bool>,
) -> bool {
    &&& keep.len() == sessions.len()
    &&& forall|i: int| 0 <= i < sessions.len() ==> passes(filter, sessions[i], #[trigger] keep[i])
}

/// Makes a page of the sessions that a filter on the working directory lets
/// through.
pub fn filtered_page(
    offset: usize,
    sessions: &Vec<StoredSession>,
    filter: Option<&SessionPath>,
) -> (page: SessionPage)
    requires
        sessions@.len() > PAGE_SIZE ==> offset + PAGE_SIZE <= usize::MAX,
    ensures
        exists|keep: Seq<bool>| #[trigger]
            filter_answer(sessions@, filter_text(filter), keep) && page@ == page_of(
                offset as nat,
                sessions@,
                keep,
            ),
{
    let mut keep: Vec<bool> = Vec::new();
    let mut i: usize = 0;
    while i < sessions.len()
        invariant
            i <= sessions@.len(),
            keep@.len() == i,
            forall|k: int|
                0 <= k < i ==> passes(filter_text(filter), sessions@[k], #[trigger] keep@[k]),
        decreases sessions@.len() - i,
    {
        let kept: bool = match filter {
            None => true,
            Some(path) => same_path(path.text.as_str(), shown(&sessions[i].state)),
        };
        keep.push(kept);
        assert(passes(filter_text(filter), sessions@[i as int], kept));
        i += 1;
    }
    assert(filter_answer(sessions@, filter_text(filter), keep@));
    list_page(offset, sessions, &keep)
}

pub open spec fn filter_text(filter: Option<&SessionPath>) -> Option<Seq<char>> {
    match filter {
        Some(path) => Some(path.text@),
        None => None,
    }
}

impl<F> AcpSessionHandler<F> {
    /// A client asks for a page of sessions: what is to be read from the store.
    pub fn list_sessions(&self, cursor: Option<&str>) -> (r: Result<ListRequest, AcpServerError>)
        ensures
            match cursor_result(opt_str(cursor)) {
                Ok(offset) => r matches Ok(request) && request.app_name@ == self.app_name@
                    && request.user_id@ == self.user_id@ && request.limit == PAGE_SIZE + 1
                    && request.offset == offset,
                Err(e) => r matches Err(error) && error@ == e,
            },
    {
        match read_cursor(cursor) {
            Err(e) => Err(e),
            Ok(offset) => Ok(
                ListRequest {
                    app_name: self.app_name.clone(),
                    user_id: self.user_id.clone(),
                    limit: PAGE_SIZE + 1,
                    offset,
                },
            ),
        }
    }
}

/// The error of a store that could not list its sessions.
pub fn list_failed(message: &str) -> (e: AcpServerError)
    ensures
        e@ == AcpErrorView::Internal("failed to list sessions: "@ + message@),
{
    AcpServerError::Internal("failed to list sessions: ".to_owned().concat(message))
}

/// The cursor that a page hands out is accepted, and leads to the place right
/// behind the page.
pub proof fn law_next_cursor_continues_the_listing(
    offset: nat,
    sessions: Seq<StoredSession>,
    keep: Seq<bool>,
)
    requires
        offset + PAGE_SIZE <= usize::MAX,
    ensures
        page_of(offset, sessions, keep).next_cursor is Some <==> sessions.len() > PAGE_SIZE,
        page_of(offset, sessions, keep).next_cursor matches Some(c) ==> cursor_result(Some(c))
            == Ok::<nat, AcpErrorView>(offset + PAGE_SIZE as nat),
{
    law_decimal_reads_back(offset + PAGE_SIZE as nat);
}

/// What a store answers that holds those sessions, in that order, when it is
/// asked for a page and one session more.
pub open spec fn read_from(stored: Seq<StoredSession>, offset: nat) -> Seq<StoredSession> {
    if offset + PAGE_SIZE < stored.len() {
        stored.subrange(offset as int, offset + PAGE_SIZE + 1)
    } else if offset < stored.len() {
        stored.skip(offset as int)
    } else {
        Seq::empty()
    }
}

/// `page` can be the page at that place.
pub open spec fn is_page(
    stored: Seq<StoredSession>,
    filter: Option<Seq<char>>,
    offset: nat,
    page: SessionPageView,
) -> bool {
    exists|keep: Seq<bool>| #[trigger]
        filter_answer(read_from(stored, offset), filter, keep) && page == page_of(
            offset,
            read_from(stored, offset),
            keep,
        )
}

/// The pages that a client gets who starts at a cursor and follows the cursor
/// of each page, until a page has none.
pub open spec fn is_listing(
    stored: Seq<StoredSession>,
    filter: Option<Seq<char>>,
    cursor: Option<Seq<char>>,
    pages: Seq<SessionPageView>,
) -> bool
    decreases pages.len(),
{
    &&& pages.len() > 0
    &&& cursor_result(cursor) matches Ok(offset) && is_page(stored, filter, offset, pages[0])
    &&& match pages[0].next_cursor {
        Some(c) => is_listing(stored, filter, Some(c), pages.skip(1)),
        None => pages.len() == 1,
    }
}

/// The sessions on all pages, in order.
pub open spec fn joined(pages: Seq<SessionPageView>) -> Seq<SessionInfoView>
    decreases pages.len(),
{
    if pages.len() == 0 {
        Seq::empty()
    } else {
        pages[0].sessions + joined(pages.skip(1))
    }
}

/// The pages of a listing, joined, show every stored session that the filter
/// lets through exactly once, in the order of the store, and no other. Without
/// a filter that is every session. No page shows more than [`PAGE_SIZE`].
pub proof fn law_pages_join_to_the_whole_listing(
    stored: Seq<StoredSession>,
    filter: Option<Seq<char>>,
    pages: Seq<SessionPageView>,
)
    requires
        stored.len() <= usize::MAX,
        is_listing(stored, filter, None, pages),
    ensures
        exists|keep: Seq<bool>| #[trigger]
            filter_answer(stored, filter, keep) && joined(pages) == kept_infos(
                stored,
                keep,
                stored.len(),
            ),
        filter is None ==> joined(pages) == Seq::new(stored.len(), |i: int| info_of(stored[i])),
        forall|i: int| 0 <= i < pages.len() ==> (#[trigger] pages[i]).sessions.len() <= PAGE_SIZE,
{
    lemma_listing(stored, filter, None, pages);
    assert(stored.skip(0) =~= stored);
    let keep = choose|keep: Seq<bool>| #[trigger]
        filter_answer(stored, filter, keep) && joined(pages) == kept_infos(
            stored,
            keep,
            stored.len(),
        );
    if filter is None {
        assert forall|i: int| 0 <= i < stored.len() implies keep[i] by {
            assert(passes(filter, stored[i], keep[i]));
        }
        lemma_all_kept(stored, keep, stored.len());
    }
}

proof fn lemma_all_kept(sessions: Seq<StoredSession>, keep: Seq<bool>, n: nat)
    requires
        n <= sessions.len(),
        forall|i: int| 0 <= i < n ==> keep[i],
    ensures
        kept_infos(sessions, keep, n) == Seq::new(n, |i: int| info_of(sessions[i])),
    decreases n,
{
    if n > 0 {
        lemma_all_kept(sessions, keep, (n - 1) as nat);
    }
    assert(kept_infos(sessions, keep, n) =~= Seq::new(n, |i: int| info_of(sessions[i])));
}

proof fn lemma_kept_bounded(sessions: Seq<StoredSession>, keep: Seq<bool>, n: nat)
    ensures
        kept_infos(sessions, keep, n).len() <= n,
    decreases n,
{
    if n > 0 {
        lemma_kept_bounded(sessions, keep, (n - 1) as nat);
    }
}

proof fn lemma_kept_prefix(
    a: Seq<StoredSession>,
    keep_a: Seq<bool>,
    b: Seq<StoredSession>,
    keep_b: Seq<bool>,
    n: nat,
)
    requires
        forall|i: int| 0 <= i < n ==> a[i] == b[i] && keep_a[i] == keep_b[i],
    ensures
        kept_infos(a, keep_a, n) == kept_infos(b, keep_b, n),
    decreases n,
{
    if n > 0 {
        lemma_kept_prefix(a, keep_a, b, keep_b, (n - 1) as nat);
    }
}

/// What is kept of `a` and, from its place `at` on, of `b`.
proof fn lemma_kept_continues(
    a: Seq<StoredSession>,
    keep_a: Seq<bool>,
    at: nat,
    b: Seq<StoredSession>,
    keep_b: Seq<bool>,
    n: nat,
)
    requires
        forall|i: int| 0 <= i < n ==> a[at + i] == b[i] && keep_a[at + i] == keep_b[i],
    ensures
        kept_infos(a, keep_a, at + n) == kept_infos(a, keep_a, at) + kept_infos(b, keep_b, n),
    decreases n,
{
    if n > 0 {
        lemma_kept_continues(a, keep_a, at, b, keep_b, (n - 1) as nat);
        assert(a[at + (n - 1)] == b[n - 1]);
    }
    assert(kept_infos(a, keep_a, at + n) =~= kept_infos(a, keep_a, at) + kept_infos(b, keep_b, n));
}

proof fn lemma_listing(
    stored: Seq<StoredSession>,
    filter: Option<Seq<char>>,
    cursor: Option<Seq<char>>,
    pages: Seq<SessionPageView>,
)
    requires
        stored.len() <= usize::MAX,
        is_listing(stored, filter, cursor, pages),
        cursor_result(cursor)->Ok_0 <= stored.len(),
    ensures
        ({
            let left = stored.skip(cursor_result(cursor)->Ok_0 as int);
            exists|keep: Seq<bool>| #[trigger]
                filter_answer(left, filter, keep) && joined(pages) == kept_infos(
                    left,
                    keep,
                    left.len(),
                )
        }),
        forall|i: int| 0 <= i < pages.len() ==> (#[trigger] pages[i]).sessions.len() <= PAGE_SIZE,
    decreases pages.len(),
{
    let offset: nat = cursor_result(cursor)->Ok_0;
    let read = read_from(stored, offset);
    let left = stored.skip(offset as int);
    let first = choose|keep: Seq<bool>| #[trigger]
        filter_answer(read, filter, keep) && pages[0] == page_of(offset, read, keep);
    lemma_kept_bounded(read, first, page_len(read.len()));
    let rest = pages.skip(1);
    match pages[0].next_cursor {
        None => {
            assert(read =~= left);
            assert(joined(rest) =~= Seq::<SessionInfoView>::empty());
            assert(joined(pages) =~= kept_infos(left, first, left.len()));
            assert(filter_answer(left, filter, first));
        },
        Some(c) => {
            let size: nat = PAGE_SIZE as nat;
            law_next_cursor_continues_the_listing(offset, read, first);
            lemma_listing(stored, filter, Some(c), rest);
            let after = stored.skip((offset + size) as int);
            let second = choose|keep: Seq<bool>| #[trigger]
                filter_answer(after, filter, keep) && joined(rest) == kept_infos(
                    after,
                    keep,
                    after.len(),
                );
            let keep = first.take(size as int) + second;
            assert forall|i: int| 0 <= i < left.len() implies passes(
                filter,
                left[i],
                #[trigger] keep[i],
            ) by {
                if i < size {
                    assert(left[i] == read[i]);
                    assert(passes(filter, read[i], first[i]));
                } else {
                    assert(left[i] == after[i - size]);
                    assert(passes(filter, after[i - size], second[i - size]));
                }
            }
            assert(filter_answer(left, filter, keep));
            lemma_kept_prefix(read, first, left, keep, size);
            lemma_kept_continues(left, keep, size, after, second, after.len());
            assert(size + after.len() == left.len());
            assert(joined(pages) =~= kept_infos(left, keep, left.len()));
        },
    }
    assert forall|i: int| 0 <= i < pages.len() implies (#[trigger] pages[i]).sessions.len()
        <= PAGE_SIZE by {
        if i > 0 {
            assert(pages[i] == rest[i - 1]);
        }
    }
}

/// A session is shown under its own identifier and with the time of its last
/// change. Its directory is the text stored under its key, or else the root;
/// its further directories are the strings stored, all and in order, or none
/// where anything else is stored.
pub proof fn law_a_session_is_shown_as_it_is_stored(s: StoredSession)
    ensures
        info_of(s).session_id == s.id@,
        info_of(s).updated_at == s.updated_at@,
        match lookup(s.state@, "acp:cwd"@) {
            Some(JsonView::Str(text)) => info_of(s).cwd == text,
            _ => info_of(s).cwd == "/"@,
        },
        match lookup(s.state@, "acp:additional_directories"@) {
            Some(JsonView::Array(items)) => {
                let plain = forall|i: int|
                    0 <= i < items.len() ==> exists|text: Seq<char>| #[trigger]
                        items[i] == JsonView::Str(text);
                &&& plain ==> info_of(s).additional_directories.len() == items.len()
                &&& plain ==> forall|i: int|
                    0 <= i < items.len() ==> items[i] == JsonView::Str(
                        #[trigger] info_of(s).additional_directories[i],
                    )
                &&& !plain ==> info_of(s).additional_directories.len() == 0
            },
            _ => info_of(s).additional_directories.len() == 0,
        },
{
    match lookup(s.state@, "acp:additional_directories"@) {
        Some(JsonView::Array(items)) => {
            let plain = forall|i: int|
                0 <= i < items.len() ==> exists|text: Seq<char>| #[trigger]
                    items[i] == JsonView::Str(text);
            if plain {
                assert forall|i: int| 0 <= i < items.len() implies (#[trigger] items[i]) is Str by {
                    let text = choose|text: Seq<char>| #[trigger] items[i] == JsonView::Str(text);
                    assert(items[i] == JsonView::Str(text));
                }
            } else {
                let i = choose|i: int|
                    0 <= i < items.len() && !exists|text: Seq<char>| #[trigger]
                        items[i] == JsonView::Str(text);
                if items[i] is Str {
                    assert(items[i] == JsonView::Str(items[i]->Str_0));
                }
                assert(!(items[i] is Str));
            }
        },
        _ => {},
    }
}

/// How many of the first `n` sessions are kept.
pub open spec fn kept_count(keep: Seq<bool>, n: nat) -> nat
    decreases n,
{
    if n == 0 {
        0
    } else if keep[n - 1] {
        kept_count(keep, (n - 1) as nat) + 1
    } else {
        kept_count(keep, (n - 1) as nat)
    }
}

/// Every session that is kept is shown, none twice, in the order in which they
/// are stored; no other is.
pub proof fn law_kept_sessions_are_shown_in_order(
    sessions: Seq<StoredSession>,
    keep: Seq<bool>,
    n: nat,
)
    requires
        n <= sessions.len(),
        keep.len() == sessions.len(),
    ensures
        kept_infos(sessions, keep, n).len() == kept_count(keep, n),
        forall|i: int|
            0 <= i < n && #[trigger] keep[i] ==> {
                &&& kept_count(keep, i as nat) < kept_infos(sessions, keep, n).len()
                &&& kept_infos(sessions, keep, n)[kept_count(keep, i as nat) as int] == info_of(
                    sessions[i],
                )
            },
    decreases n,
{
    if n > 0 {
        law_kept_sessions_are_shown_in_order(sessions, keep, (n - 1) as nat);
    }
}

/// A page shows those of the first fifty sessions that are kept. It leads on
/// exactly where there are more, to the place fifty further on.
pub proof fn law_what_a_page_shows(offset: nat, sessions: Seq<StoredSession>, keep: Seq<bool>)
    ensures
        PAGE_SIZE == 50,
        page_of(offset, sessions, keep).sessions == kept_infos(
            sessions,
            keep,
            if sessions.len() <= 50 {
                sessions.len()
            } else {
                50
            },
        ),
        sessions.len() > 50 ==> page_of(offset, sessions, keep).next_cursor == Some(
            decimal(offset + 50),
        ),
        sessions.len() <= 50 ==> page_of(offset, sessions, keep).next_cursor is None,
{
}

/// Without a filter every session passes; with one, a session that is shown with
/// just that directory does, and none does whose directory cannot be the same.
pub proof fn law_what_a_filter_lets_through(
    filter: Option<Seq<char>>,
    session: StoredSession,
    kept: bool,
)
    requires
        passes(filter, session, kept),
    ensures
        filter is None ==> kept,
        filter == Some(info_of(session).cwd) ==> kept,
        filter is Some && !may_be_same_path(filter->Some_0, info_of(session).cwd) ==> !kept,
{
}

/// A page starts at the beginning where no cursor is given, and otherwise at
/// the number that the cursor spells; what spells none that fits is refused.
pub proof fn law_where_a_page_starts(cursor: Option<Seq<char>>)
    ensures
        cursor is None ==> cursor_result(cursor) == Ok::<nat, AcpErrorView>(0),
        cursor matches Some(c) ==> match unsigned_value(c) {
            Some(n) => if n <= usize::MAX {
                cursor_result(cursor) == Ok::<nat, AcpErrorView>(n)
            } else {
                cursor_result(cursor) == Err::<nat, AcpErrorView>(
                    AcpErrorView::MalformedMessage("invalid session cursor"@),
                )
            },
            None => cursor_result(cursor) == Err::<nat, AcpErrorView>(
                AcpErrorView::MalformedMessage("invalid session cursor"@),
            ),
        },
{
}

/// A view leaves no session out.
pub proof fn law_views_leave_nothing_out(infos: Seq<SessionInfo>, i: int)
    ensures
        infos_view(infos).len() == infos.len(),
        0 <= i < infos.len() ==> infos_view(infos)[i] == infos[i]@,
{
}

/// One session more than a page holds is asked for, from the place on that the
/// cursor names, among the sessions of the server's application and user.
pub proof fn law_what_is_read_for_a_page<F>(
    h: AcpSessionHandler<F>,
    cursor: Option<&str>,
    r: Result<ListRequest, AcpServerError>,
)
    requires
        call_ensures(AcpSessionHandler::<F>::list_sessions, (&h, cursor), r),
    ensures
        cursor is None ==> r is Ok,
        r matches Ok(request) ==> {
            &&& request.app_name@ == h.app_name@
            &&& request.user_id@ == h.user_id@
            &&& request.limit == 51
            &&& cursor is None ==> request.offset == 0
            &&& cursor matches Some(c) ==> unsigned_value(c@) == Some(request.offset as nat)
        },
        r matches Err(e) ==> e@ == AcpErrorView::MalformedMessage("invalid session cursor"@),
{
}

} // verus!
