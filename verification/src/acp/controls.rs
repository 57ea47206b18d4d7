//! Modes, options and titles of sessions.

use crate::acp::error::{malformed, outcome, AcpErrorView, AcpServerError};
use crate::acp::handler::{config_prefix, ensure_running, mode_key, AcpSessionHandler};
use crate::json::{law_set_then_get, lookup, opt_json, with_entry, Json, JsonObject, JsonView};
use crate::text::{opt_text, same_text, texts};
use vstd::prelude::*;
use vstd::string::*;

verus! {

/// The modes of a session: the current one, and those there are.
#[derive(Debug)]
pub struct ModeState {
    pub current_mode_id: String,
    pub available_mode_ids: Vec<String>,
}

#[verifier::ext_equal]
pub struct ModeStateView {
    pub current_mode_id: Seq<char>,
    pub available_mode_ids: Seq<Seq<char>>,
}

impl View for ModeState {
    type V = ModeStateView;

    open spec fn view(&self) -> ModeStateView {
        ModeStateView {
            current_mode_id: self.current_mode_id@,
            available_mode_ids: texts(self.available_mode_ids@),
        }
    }
}

/// What an agent lets clients choose for a session.
pub struct Controls {
    pub modes: Option<ModeState>,
    /// The identifiers of the options, in the order in which they are shown.
    pub option_ids: Vec<String>,
}

/// A value that is to be written to a session's stored state.
#[derive(Debug)]
pub struct StateWrite {
    pub key: String,
    pub value: Json,
}

#[verifier::ext_equal]
pub struct StateWriteView {
    pub key: Seq<char>,
    pub value: JsonView,
}

impl View for StateWrite {
    type V = StateWriteView;

    open spec fn view(&self) -> StateWriteView {
        StateWriteView { key: self.key@, value: self.value@ }
    }
}

pub open spec fn write_outcome(r: Result<StateWrite, AcpServerError>) -> Result<
    StateWriteView,
    AcpErrorView,
> {
    match r {
        Ok(w) => Ok(w@),
        Err(e) => Err(e@),
    }
}

/// The state key of a session's title.
pub open spec fn title_key() -> Seq<char> {
    "acp:title"@
}

/// The state key of a session option.
pub open spec fn option_key(id: Seq<char>) -> Seq<char> {
    config_prefix() + id
}

/// The state key of a session option.
pub fn config_state_key(id: &str) -> (key: String)
    ensures
        key@ == option_key(id@),
{
    "acp:config:".to_owned().concat(id)
}

/// A list holds a text.
fn lists(list: &Vec<String>, text: &str) -> (b: bool)
    ensures
        b == texts(list@).contains(text@),
{
    let mut i: usize = 0;
    while i < list.len()
        invariant
            i <= list@.len(),
            forall|k: int| 0 <= k < i ==> (#[trigger] texts(list@)[k]) != text@,
        decreases list@.len() - i,
    {
        if same_text(list[i].as_str(), text) {
            assert(texts(list@)[i as int] == text@);
            return true;
        }
        i += 1;
    }
    false
}

/// What is to be written so that a session is in that mode. There must be such
/// a mode.
pub open spec fn mode_write(
    shutting_down: bool,
    modes: Option<ModeStateView>,
    mode_id: Seq<char>,
) -> Result<StateWriteView, AcpErrorView> {
    if shutting_down {
        Err(AcpErrorView::ShuttingDown)
    } else if modes matches Some(m) && m.available_mode_ids.contains(mode_id) {
        Ok(StateWriteView { key: mode_key(), value: JsonView::Str(mode_id) })
    } else {
        malformed("unknown session mode: "@ + mode_id)
    }
}

/// What is to be written so that an option has that value. There must be such
/// an option, and the value must suit it.
pub open spec fn option_write(
    shutting_down: bool,
    options: Seq<Seq<char>>,
    config_id: Seq<char>,
    suits: bool,
    encoded: Result<JsonView, Seq<char>>,
) -> Result<StateWriteView, AcpErrorView> {
    if shutting_down {
        Err(AcpErrorView::ShuttingDown)
    } else if !options.contains(config_id) {
        malformed("unknown configuration option: "@ + config_id)
    } else if !suits {
        malformed("invalid value for configuration option: "@ + config_id)
    } else {
        match encoded {
            Ok(value) => Ok(StateWriteView { key: option_key(config_id), value }),
            Err(e) => Err(AcpErrorView::Internal(e)),
        }
    }
}

/// The mode that a session was left in.
pub open spec fn stored_mode(state: Option<Seq<(Seq<char>, JsonView)>>) -> Option<Seq<char>> {
    match state {
        Some(s) => match lookup(s, mode_key()) {
            Some(v) => v.as_str(),
            None => None,
        },
        None => None,
    }
}

/// The modes as a client sees them: the current one is the one stored.
pub open spec fn shown_modes(
    modes: Option<ModeStateView>,
    state: Option<Seq<(Seq<char>, JsonView)>>,
) -> Option<ModeStateView> {
    match modes {
        Some(m) => Some(
            match stored_mode(state) {
                Some(current) => ModeStateView { current_mode_id: current, ..m },
                None => m,
            },
        ),
        None => None,
    }
}

/// The value stored for an option.
pub open spec fn stored_option(
    state: Option<Seq<(Seq<char>, JsonView)>>,
    id: Seq<char>,
) -> Option<JsonView> {
    match state {
        Some(s) => lookup(s, option_key(id)),
        None => None,
    }
}

/// The values stored for options; none at all where there are no options.
pub open spec fn shown_options(
    options: Seq<Seq<char>>,
    state: Option<Seq<(Seq<char>, JsonView)>>,
) -> Option<Seq<Option<JsonView>>> {
    if options.len() == 0 {
        None
    } else {
        Some(Seq::new(options.len(), |i: int| stored_option(state, options[i])))
    }
}

pub open spec fn opt_state(state: Option<&JsonObject>) -> Option<Seq<(Seq<char>, JsonView)>> {
    match state {
        Some(s) => Some(s@),
        None => None,
    }
}

pub open spec fn opt_modes(modes: Option<ModeState>) -> Option<ModeStateView> {
    match modes {
        Some(m) => Some(m@),
        None => None,
    }
}

pub open spec fn opt_values(values: Option<Vec<Option<Json>>>) -> Option<Seq<Option<JsonView>>> {
    match values {
        Some(v) => Some(values_view(v@)),
        None => None,
    }
}

pub open spec fn values_view(values: Seq<Option<Json>>) -> Seq<Option<JsonView>> {
    Seq::new(values.len(), |i: int| opt_json(values[i]))
}

/// The title that a session was given.
pub open spec fn stored_title(state: Option<Seq<(Seq<char>, JsonView)>>) -> Option<Seq<char>> {
    match state {
        Some(s) => match lookup(s, title_key()) {
            Some(v) => v.as_str(),
            None => None,
        },
        None => None,
    }
}

/// What a client is told when a session becomes active: the agent's commands,
/// then the session's title.
pub struct ActivationUpdates {
    pub commands: bool,
    pub title: Option<String>,
}

impl<F> AcpSessionHandler<F> {
    /// A client sets a session's mode.
    pub fn set_mode(&self, shutting_down: bool, modes: Option<&ModeState>, mode_id: &str) -> (r:
        Result<StateWrite, AcpServerError>)
        ensures
            write_outcome(r) == mode_write(
                shutting_down,
                match modes {
                    Some(m) => Some(m@),
                    None => None,
                },
                mode_id@,
            ),
    {
        match ensure_running(shutting_down) {
            Err(e) => {
                return Err(e);
            },
            Ok(()) => {},
        }
        let known: bool = match modes {
            Some(m) => lists(&m.available_mode_ids, mode_id),
            None => false,
        };
        if !known {
            return Err(
                AcpServerError::MalformedMessage(
                    "unknown session mode: ".to_owned().concat(mode_id),
                ),
            );
        }
        Ok(StateWrite { key: "acp:mode".to_owned(), value: Json::string(mode_id) })
    }

    /// A client sets an option of a session. `suits` tells whether the value
    /// suits the option, and `encoded` is the value as it is stored, or why it
    /// has no such form.
    pub fn set_config_option(
        &self,
        shutting_down: bool,
        option_ids: &Vec<String>,
        config_id: &str,
        suits: bool,
        encoded: Result<Json, String>,
    ) -> (r: Result<StateWrite, AcpServerError>)
        ensures
            write_outcome(r) == option_write(
                shutting_down,
                texts(option_ids@),
                config_id@,
                suits,
                match encoded {
                    Ok(j) => Ok(j@),
                    Err(e) => Err(e@),
                },
            ),
    {
        match ensure_running(shutting_down) {
            Err(e) => {
                return Err(e);
            },
            Ok(()) => {},
        }
        if !lists(option_ids, config_id) {
            return Err(
                AcpServerError::MalformedMessage(
                    "unknown configuration option: ".to_owned().concat(config_id),
                ),
            );
        }
        if !suits {
            return Err(
                AcpServerError::MalformedMessage(
                    "invalid value for configuration option: ".to_owned().concat(config_id),
                ),
            );
        }
        match encoded {
            Ok(value) => Ok(StateWrite { key: config_state_key(config_id), value }),
            Err(e) => Err(AcpServerError::Internal(e)),
        }
    }

    /// A session is given a title.
    pub fn set_session_title(&self, shutting_down: bool, title: &str) -> (r: Result<
        StateWrite,
        AcpServerError,
    >)
        ensures
            write_outcome(r) == (if shutting_down {
                Err(AcpErrorView::ShuttingDown)
            } else {
                Ok(StateWriteView { key: title_key(), value: JsonView::Str(title@) })
            }),
    {
        match ensure_running(shutting_down) {
            Err(e) => Err(e),
            Ok(()) => Ok(StateWrite { key: "acp:title".to_owned(), value: Json::string(title) }),
        }
    }

    /// The modes of a session, and the values stored for its options. A state
    /// that could not be read counts as empty.
    pub fn session_controls_snapshot(
        &self,
        controls: Option<Controls>,
        state: Option<&JsonObject>,
    ) -> (r: (Option<ModeState>, Option<Vec<Option<Json>>>))
        ensures
            match controls {
                Some(c) => {
                    &&& opt_modes(r.0) == shown_modes(opt_modes(c.modes), opt_state(state))
                    &&& opt_values(r.1) == shown_options(texts(c.option_ids@), opt_state(state))
                },
                None => r.0 is None && r.1 is None,
            },
    {
        let controls: Controls = match controls {
            Some(c) => c,
            None => {
                return (None, None);
            },
        };
        let modes: Option<ModeState> = match controls.modes {
            Some(m) => {
                let mut m = m;
                match state {
                    Some(s) => match s.get("acp:mode") {
                        Some(v) => match v.as_str() {
                            Some(current) => {
                                m.current_mode_id = current.to_owned();
                            },
                            None => {},
                        },
                        None => {},
                    },
                    None => {},
                }
                Some(m)
            },
            None => None,
        };
        let ids: &Vec<String> = &controls.option_ids;
        if ids.len() == 0 {
            return (modes, None);
        }
        let ghost all = texts(ids@);
        let mut values: Vec<Option<Json>> = Vec::new();
        let mut i: usize = 0;
        while i < ids.len()
            invariant
                i <= ids@.len(),
                all == texts(ids@),
                values@.len() == i,
                forall|k: int|
                    0 <= k < i ==> opt_json(#[trigger] values@[k]) == stored_option(
                        opt_state(state),
                        all[k],
                    ),
            decreases ids@.len() - i,
        {
            let value: Option<Json> = match state {
                Some(s) => match s.get(config_state_key(ids[i].as_str()).as_str()) {
                    Some(v) => Some(v.copy()),
                    None => None,
                },
                None => None,
            };
            values.push(value);
            i += 1;
        }
        assert(values_view(values@) =~= Seq::new(
            all.len(),
            |i: int| stored_option(opt_state(state), all[i]),
        ));
        (modes, Some(values))
    }

    /// The title of a session, where its state could be read and has one.
    pub fn session_title(&self, state: Option<&JsonObject>) -> (title: Option<String>)
        ensures
            opt_text(title) == stored_title(opt_state(state)),
    {
        match state {
            Some(s) => match s.get("acp:title") {
                Some(v) => match v.as_str() {
                    Some(t) => Some(t.to_owned()),
                    None => None,
                },
                None => None,
            },
            None => None,
        }
    }

    /// Whether a client is told about the agent's commands: only where there
    /// are some.
    pub fn emit_available_commands(&self, commands: usize) -> (b: bool)
        ensures
            b == (commands > 0),
    {
        commands > 0
    }

    /// What a client is told when a session becomes active.
    pub fn emit_session_activation_updates(&self, commands: usize, state: Option<&JsonObject>) -> (
    u: ActivationUpdates)
        ensures
            u.commands == (commands > 0),
            opt_text(u.title) == stored_title(opt_state(state)),
    {
        ActivationUpdates {
            commands: self.emit_available_commands(commands),
            title: self.session_title(state),
        }
    }
}

pub open spec fn written_outcome(result: Result<(), String>) -> Result<(), AcpErrorView> {
    match result {
        Ok(()) => Ok(()),
        Err(e) => Err(AcpErrorView::Internal("failed to persist session state: "@ + e@)),
    }
}

/// A value has been written to a session's stored state, or could not be.
pub fn write_session_state(result: Result<(), String>) -> (r: Result<(), AcpServerError>)
    ensures
        outcome(r) == written_outcome(result),
{
    match result {
        Ok(()) => Ok(()),
        Err(e) => Err(
            AcpServerError::Internal(
                "failed to persist session state: ".to_owned().concat(e.as_str()),
            ),
        ),
    }
}

pub open spec fn sent_outcome(result: Result<(), String>) -> Result<(), AcpErrorView> {
    match result {
        Ok(()) => Ok(()),
        Err(e) => Err(AcpErrorView::Transport(e@)),
    }
}

/// A client has been notified, or could not be.
pub fn notified(result: Result<(), String>) -> (r: Result<(), AcpServerError>)
    ensures
        outcome(r) == sent_outcome(result),
{
    match result {
        Ok(()) => Ok(()),
        Err(e) => Err(AcpServerError::Transport(e)),
    }
}

// ---------------------------------------------------------------------
// Laws
// ---------------------------------------------------------------------

/// A mode that was set is the current one from then on.
pub proof fn law_a_mode_that_was_set_is_current(
    modes: ModeStateView,
    mode_id: Seq<char>,
    state: Seq<(Seq<char>, JsonView)>,
)
    requires
        modes.available_mode_ids.contains(mode_id),
    ensures
        ({
            let write = mode_write(false, Some(modes), mode_id)->Ok_0;
            let after = with_entry(state, write.key, write.value);
            shown_modes(Some(modes), Some(after)) == Some(
                ModeStateView { current_mode_id: mode_id, ..modes },
            )
        }),
{
    law_set_then_get(state, mode_key(), JsonView::Str(mode_id), mode_key());
}

/// A value that was set for an option is shown for it from then on, and the
/// other options and the mode are left as they were.
pub proof fn law_an_option_that_was_set_is_shown(
    options: Seq<Seq<char>>,
    config_id: Seq<char>,
    value: JsonView,
    state: Seq<(Seq<char>, JsonView)>,
    other: Seq<char>,
)
    requires
        options.contains(config_id),
    ensures
        ({
            let write = option_write(false, options, config_id, true, Ok(value))->Ok_0;
            let after = with_entry(state, write.key, write.value);
            &&& stored_option(Some(after), config_id) == Some(value)
            &&& other != config_id ==> stored_option(Some(after), other) == stored_option(
                Some(state),
                other,
            )
            &&& stored_mode(Some(after)) == stored_mode(Some(state))
        }),
{
    law_set_then_get(state, option_key(config_id), value, option_key(config_id));
    law_set_then_get(state, option_key(config_id), value, option_key(other));
    if other != config_id {
        assert(option_key(other) != option_key(config_id)) by {
            let n = config_prefix().len() as int;
            assert(option_key(other).skip(n) =~= other);
            assert(option_key(config_id).skip(n) =~= config_id);
        }
    }
    assert(option_key(config_id) != mode_key()) by {
        reveal_strlit("acp:config:");
        reveal_strlit("acp:mode");
        assert(option_key(config_id)[4] == 'c');
        assert(mode_key()[4] == 'm');
    }
    law_set_then_get(state, option_key(config_id), value, mode_key());
}

/// A refused mode or option leaves the stored state alone: there is nothing to
/// write.
pub proof fn law_a_refused_choice_writes_nothing(
    modes: Option<ModeStateView>,
    mode_id: Seq<char>,
    options: Seq<Seq<char>>,
    config_id: Seq<char>,
    suits: bool,
    encoded: Result<JsonView, Seq<char>>,
)
    ensures
        (modes matches Some(m) ==> !m.available_mode_ids.contains(mode_id)) ==> mode_write(
            false,
            modes,
            mode_id,
        ) is Err,
        !options.contains(config_id) || !suits ==> option_write(
            false,
            options,
            config_id,
            suits,
            encoded,
        ) is Err,
{
}

/// A title that was set is the session's title from then on.
pub proof fn law_a_title_that_was_set_is_shown(title: Seq<char>, state: Seq<(Seq<char>, JsonView)>)
    ensures
        stored_title(Some(with_entry(state, title_key(), JsonView::Str(title)))) == Some(title),
{
    law_set_then_get(state, title_key(), JsonView::Str(title), title_key());
}

/// A session is put into a mode exactly while the server runs and where there
/// is such a mode, by writing it under its key; else the answer says why not.
pub proof fn law_how_a_mode_is_set(
    shutting_down: bool,
    modes: Option<ModeStateView>,
    mode_id: Seq<char>,
)
    ensures
        ({
            let known = modes is Some && exists|i: int|
                0 <= i < modes->Some_0.available_mode_ids.len() && (
                #[trigger] modes->Some_0.available_mode_ids[i]) == mode_id;
            let result = mode_write(shutting_down, modes, mode_id);
            &&& shutting_down ==> result == Err::<StateWriteView, AcpErrorView>(
                AcpErrorView::ShuttingDown,
            )
            &&& !shutting_down && known ==> (result matches Ok(write) && write.key == "acp:mode"@
                && write.value == JsonView::Str(mode_id))
            &&& !shutting_down && !known ==> result == Err::<StateWriteView, AcpErrorView>(
                AcpErrorView::MalformedMessage("unknown session mode: "@ + mode_id),
            )
        }),
{
}

/// An option is set exactly while the server runs and where there is such an
/// option, the value suits it and has a stored form, by writing that under the
/// option's key; else the answer says why not.
pub proof fn law_how_an_option_is_set(
    shutting_down: bool,
    options: Seq<Seq<char>>,
    config_id: Seq<char>,
    suits: bool,
    encoded: Result<JsonView, Seq<char>>,
)
    ensures
        ({
            let known = exists|i: int| 0 <= i < options.len() && (#[trigger] options[i]) == config_id;
            let result = option_write(shutting_down, options, config_id, suits, encoded);
            &&& shutting_down ==> result == Err::<StateWriteView, AcpErrorView>(
                AcpErrorView::ShuttingDown,
            )
            &&& !shutting_down && !known ==> result == Err::<StateWriteView, AcpErrorView>(
                AcpErrorView::MalformedMessage("unknown configuration option: "@ + config_id),
            )
            &&& !shutting_down && known && !suits ==> result == Err::<StateWriteView, AcpErrorView>(
                AcpErrorView::MalformedMessage(
                    "invalid value for configuration option: "@ + config_id,
                ),
            )
            &&& !shutting_down && known && suits ==> match encoded {
                Ok(value) => result matches Ok(write) && write.key == "acp:config:"@ + config_id
                    && write.value == value,
                Err(e) => result == Err::<StateWriteView, AcpErrorView>(AcpErrorView::Internal(e)),
            }
        }),
{
}

/// A client is shown all the modes, and as the current one that which is
/// stored, where one is.
pub proof fn law_which_modes_are_shown(
    modes: Option<ModeStateView>,
    state: Option<Seq<(Seq<char>, JsonView)>>,
)
    ensures
        modes is None <==> shown_modes(modes, state) is None,
        modes matches Some(m) ==> (shown_modes(modes, state) matches Some(shown) && {
            let stored = match state {
                Some(s) => lookup(s, "acp:mode"@),
                None => None,
            };
            &&& shown.available_mode_ids == m.available_mode_ids
            &&& shown.current_mode_id == (match stored {
                Some(JsonView::Str(current)) => current,
                _ => m.current_mode_id,
            })
        }),
{
}

/// A client is shown a value for each option, in order: the one stored under
/// the option's key, where one is. Where there are no options, none is shown.
pub proof fn law_which_options_are_shown(
    options: Seq<Seq<char>>,
    state: Option<Seq<(Seq<char>, JsonView)>>,
    i: int,
)
    ensures
        options.len() == 0 <==> shown_options(options, state) is None,
        shown_options(options, state) matches Some(values) ==> {
            &&& values.len() == options.len()
            &&& 0 <= i < options.len() ==> values[i] == (match state {
                Some(s) => lookup(s, "acp:config:"@ + options[i]),
                None => None,
            })
        },
{
}

/// A session's title is the text stored under its key.
pub proof fn law_which_title_is_shown(state: Option<Seq<(Seq<char>, JsonView)>>)
    ensures
        title_key() == "acp:title"@,
        stored_title(state) == (match state {
            Some(s) => match lookup(s, "acp:title"@) {
                Some(JsonView::Str(title)) => Some(title),
                _ => None,
            },
            None => None,
        }),
{
}

/// What could not be written or sent is reported, and nothing else is.
pub proof fn law_what_writing_and_sending_come_to(result: Result<(), String>)
    ensures
        match result {
            Ok(()) => written_outcome(result) is Ok && sent_outcome(result) is Ok,
            Err(e) => {
                &&& written_outcome(result) == Err::<(), AcpErrorView>(
                    AcpErrorView::Internal("failed to persist session state: "@ + e@),
                )
                &&& sent_outcome(result) == Err::<(), AcpErrorView>(AcpErrorView::Transport(e@))
            },
        },
{
}

/// A title is written under its key, as it is, as long as the server runs.
pub proof fn law_how_a_title_is_set<F>(
    h: AcpSessionHandler<F>,
    shutting_down: bool,
    title: &str,
    r: Result<StateWrite, AcpServerError>,
)
    requires
        call_ensures(AcpSessionHandler::<F>::set_session_title, (&h, shutting_down, title), r),
    ensures
        shutting_down ==> (r matches Err(e) && e@ == AcpErrorView::ShuttingDown),
        !shutting_down ==> (r matches Ok(write) && write.key@ == "acp:title"@ && write.value@
            == JsonView::Str(title@)),
{
}

/// Views leave no value out.
pub proof fn law_views_leave_nothing_out(values: Seq<Option<Json>>, i: int)
    ensures
        values_view(values).len() == values.len(),
        0 <= i < values.len() ==> match values[i] {
            Some(j) => values_view(values)[i] == Some(j@),
            None => values_view(values)[i] is None,
        },
{
}

} // verus!
