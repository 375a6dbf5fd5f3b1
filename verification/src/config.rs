//! The configured keys, and the turns of a conversation.

use std::sync::Arc;
use vstd::prelude::*;

use crate::text::same_text;

verus! {

/// One configured key, with the model and the options it is used with.
#[derive(Debug, PartialEq, Eq)]
pub struct CfgEntry {
    pub api_key: String,
    pub system_prompt: String,
    pub model: String,
    pub enable_grounding: bool,
}

/// A `CfgEntry` over sequences of characters.
pub struct CfgView {
    pub api_key: Seq<char>,
    pub system_prompt: Seq<char>,
    pub model: Seq<char>,
    pub enable_grounding: bool,
}

impl View for CfgEntry {
    type V = CfgView;

    open spec fn view(&self) -> CfgView {
        CfgView {
            api_key: self.api_key@,
            system_prompt: self.system_prompt@,
            model: self.model@,
            enable_grounding: self.enable_grounding,
        }
    }
}

impl DeepView for CfgEntry {
    type V = CfgView;

    open spec fn deep_view(&self) -> CfgView {
        self@
    }
}

/// A configuration can be used: it names a key and a model.
pub open spec fn usable(cfg: CfgView) -> bool {
    cfg.api_key.len() > 0 && cfg.model.len() > 0
}

impl CfgEntry {
    /// Whether the configuration names a key and a model.
    pub fn is_usable(&self) -> (result: bool)
        ensures
            result == usable(self@),
    {
        !self.api_key.as_str().is_empty() && !self.model.as_str().is_empty()
    }
}

/// The configurations before any are installed: none.
pub fn configs() -> (result: Arc<Vec<CfgEntry>>)
    ensures
        result.deep_view() == Seq::<CfgView>::empty(),
{
    let none: Vec<CfgEntry> = Vec::new();
    assert(none.deep_view() == Seq::<CfgView>::empty());
    Arc::new(none)
}

/// The configurations after some were read, or none could be.
pub open spec fn installed(
    current: Seq<CfgView>,
    parsed: Option<Seq<CfgView>>,
) -> Seq<CfgView> {
    match parsed {
        Some(list) => list,
        None => current,
    }
}

/// Installs configurations that could be read in place of the current ones, and
/// keeps the current ones where they could not.
pub fn install_configs(current: &mut Arc<Vec<CfgEntry>>, parsed: Option<Vec<CfgEntry>>) -> (done:
    bool)
    ensures
        done == (parsed is Some),
        final(current).deep_view() == installed(old(current).deep_view(), parsed.deep_view()),
        match parsed {
            Some(list) => final(current).deep_view() == list.deep_view(),
            None => *final(current) == *old(current),
        },
{
    match parsed {
        Some(list) => {
            *current = Arc::new(list);
            true
        },
        None => false,
    }
}

/// One turn of a conversation.
#[derive(Debug, PartialEq, Eq)]
pub struct Turn {
    pub role: String,
    pub text: String,
}

/// A `Turn` over sequences of characters.
pub struct TurnView {
    pub role: Seq<char>,
    pub text: Seq<char>,
}

impl View for Turn {
    type V = TurnView;

    open spec fn view(&self) -> TurnView {
        TurnView { role: self.role@, text: self.text@ }
    }
}

impl DeepView for Turn {
    type V = TurnView;

    open spec fn deep_view(&self) -> TurnView {
        self@
    }
}

/// A role that the service knows.
pub open spec fn known_role(role: Seq<char>) -> bool {
    role == "user"@ || role == "model"@
}

/// The turn with its role, or as the user's where the service does not know the
/// role.
pub open spec fn sanitized(turn: TurnView) -> TurnView {
    if known_role(turn.role) {
        turn
    } else {
        TurnView { role: "user"@, text: turn.text }
    }
}

/// The turns of a prompt: those that it lists, or the prompt itself as the one turn
/// of the user where it lists none.
pub open spec fn turns_of(prompt: Seq<char>, listed: Option<Seq<TurnView>>) -> Seq<TurnView> {
    match listed {
        Some(turns) if turns.len() > 0 => turns.map_values(|turn: TurnView| sanitized(turn)),
        _ => seq![TurnView { role: "user"@, text: prompt }],
    }
}

/// Makes the role of a turn one that the service knows.
pub fn sanitize_role(t: Turn) -> (result: Turn)
    ensures
        result@ == sanitized(t@),
{
    if !same_text(t.role.as_str(), "user") && !same_text(t.role.as_str(), "model") {
        Turn { role: "user".to_owned(), text: t.text }
    } else {
        t
    }
}

/// The turns of a prompt. `listed` is the prompt read as a JSON list of turns, where
/// it can be read so.
pub fn parse_turns(prompt: &str, listed: Option<Vec<Turn>>) -> (turns: Vec<Turn>)
    ensures
        turns.deep_view() == turns_of(prompt@, listed.deep_view()),
{
    match listed {
        Some(list) if list.len() > 0 => {
            let ghost expected = turns_of(prompt@, listed.deep_view());
            let mut turns: Vec<Turn> = Vec::new();
            for turn in it: list
                invariant
                    it.seq() == list@,
                    expected == list.deep_view().map_values(|turn: TurnView| sanitized(turn)),
                    turns.deep_view() == expected.take(it.index()),
            {
                let ghost before = turns.deep_view();
                turns.push(sanitize_role(turn));
                assert(list.deep_view()[it.index()] == turn@);
                assert(turns.deep_view() == before.push(sanitized(turn@)));
                assert(turns.deep_view() == expected.take(it.index() + 1));
            }
            assert(expected.take(expected.len() as int) == expected);
            turns
        },
        _ => {
            let mut turns: Vec<Turn> = Vec::new();
            turns.push(Turn { role: "user".to_owned(), text: prompt.to_owned() });
            assert(turns.deep_view() == turns_of(prompt@, listed.deep_view()));
            turns
        },
    }
}

/// A conversation has at least one turn, and the service knows the role of each.
pub proof fn law_turns_are_sendable(prompt: Seq<char>, listed: Option<Seq<TurnView>>)
    ensures
        turns_of(prompt, listed).len() > 0,
        forall|i: int|
            0 <= i < turns_of(prompt, listed).len() ==> known_role(
                #[trigger] turns_of(prompt, listed)[i].role,
            ),
{
}

/// Reading the roles leaves the texts of the listed turns, their number and their
/// order as they are, and a second time changes nothing more.
pub proof fn law_turns_keep_their_texts(prompt: Seq<char>, listed: Seq<TurnView>)
    requires
        listed.len() > 0,
    ensures
        turns_of(prompt, Some(listed)).len() == listed.len(),
        forall|i: int|
            0 <= i < listed.len() ==> #[trigger] turns_of(prompt, Some(listed))[i].text
                == listed[i].text,
        turns_of(prompt, Some(turns_of(prompt, Some(listed)))) == turns_of(prompt, Some(listed)),
{
    let once = turns_of(prompt, Some(listed));
    assert(turns_of(prompt, Some(once)) =~= once);
}

/// A configuration can be used if and only if it names a key and a model, whatever else it says.
pub proof fn law_key_and_model_are_enough(cfg: CfgEntry)
    ensures
        usable(cfg@) <==> cfg.api_key@.len() > 0 && cfg.model@.len() > 0,
        cfg@.api_key == cfg.api_key@,
        cfg@.model == cfg.model@,
        cfg@.system_prompt == cfg.system_prompt@,
        cfg@.enable_grounding == cfg.enable_grounding,
{
}

/// A prompt that lists no turns is sent whole, as the one turn of the user.
pub proof fn law_plain_prompt_is_sent_whole(prompt: Seq<char>, listed: Option<Seq<TurnView>>)
    requires
        listed matches Some(turns) ==> turns.len() == 0,
    ensures
        turns_of(prompt, listed).len() == 1,
        turns_of(prompt, listed)[0].role == "user"@,
        turns_of(prompt, listed)[0].text == prompt,
{
}

/// A listed turn keeps its role where it is that of the user or of the model, and else is the
/// user's.
pub proof fn law_turns_keep_known_roles(prompt: Seq<char>, listed: Seq<TurnView>, i: int)
    requires
        0 <= i < listed.len(),
    ensures
        listed[i].role == "user"@ || listed[i].role == "model"@ ==> turns_of(
            prompt,
            Some(listed),
        )[i].role == listed[i].role,
        listed[i].role != "user"@ && listed[i].role != "model"@ ==> turns_of(
            prompt,
            Some(listed),
        )[i].role == "user"@,
        turns_of(prompt, Some(listed))[i].text == listed[i].text,
{
}

/// A turn keeps its text, and its role where it is that of the user or of the model; else it is
/// the user's.
pub proof fn law_turn_keeps_its_text(turn: TurnView)
    ensures
        sanitized(turn).text == turn.text,
        turn.role == "user"@ || turn.role == "model"@ ==> sanitized(turn).role == turn.role,
        turn.role != "user"@ && turn.role != "model"@ ==> sanitized(turn).role == "user"@,
{
}

/// What is said of these values is said of all that they hold.
pub proof fn law_config_views_leave_nothing_out(cfg: CfgEntry, turn: Turn)
    ensures
        cfg.deep_view() == cfg@,
        turn@.role == turn.role@,
        turn@.text == turn.text@,
        turn.deep_view() == turn@,
{
}

/// Configurations that could be read take the place of all those before, none left out and none
/// kept; where none could be, nothing changes.
pub proof fn law_configurations_are_replaced_whole(current: Seq<CfgView>, list: Seq<CfgView>)
    ensures
        installed(current, Some(list)) == list,
        installed(current, None) == current,
{
}

} // verus!
