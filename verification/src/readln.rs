//! Completion hints for the line being typed.
//!
//! The registry of known commands is built once, when the shell starts, and
//! only read afterwards. A lookup offers at most one hint, and only while the
//! cursor stands at the end of a line that is not empty: the rest of the
//! first registered entry that begins with what was typed.

use vstd::prelude::*;
use vstd::string::*;
use crate::text::{same_text, starts_with, to_chars};

verus! {

/// A hint in the model: the text to show, and how much of it, counted in
/// characters from its start, is inserted when the hint is taken.
pub struct HintSpec {
    pub display: Seq<char>,
    pub complete_up_to: nat,
}

impl HintSpec {
    /// The part to insert lies within the text.
    pub open spec fn wf(self) -> bool {
        self.complete_up_to <= self.display.len()
    }

    /// The hint that is left when the first `strip_chars` characters have
    /// been typed already.
    pub open spec fn suffix(self, strip_chars: nat) -> HintSpec
        recommends
            strip_chars <= self.display.len(),
    {
        HintSpec {
            display: self.display.skip(strip_chars as int),
            complete_up_to: if self.complete_up_to >= strip_chars {
                (self.complete_up_to - strip_chars) as nat
            } else {
                0
            },
        }
    }

    /// The text to insert when the hint is taken, if there is any.
    pub open spec fn completion(self) -> Option<Seq<char>> {
        if self.complete_up_to > 0 {
            Some(self.display.take(self.complete_up_to as int))
        } else {
            None
        }
    }

    /// Whether the hint is one for a line that reads `line` so far.
    pub open spec fn matches(self, line: Seq<char>) -> bool {
        line.is_prefix_of(self.display)
    }
}

/// A completion hint.
#[derive(Debug, PartialEq, Eq, Hash)]
pub struct CommandHint {
    display: String,
    complete_up_to: usize,
}

impl View for CommandHint {
    type V = HintSpec;

    closed spec fn view(&self) -> HintSpec {
        HintSpec { display: self.display@, complete_up_to: self.complete_up_to as nat }
    }
}

impl Clone for CommandHint {
    fn clone(&self) -> (copy: CommandHint)
        ensures
            copy@ == self@,
    {
        proof {
            use_type_invariant(self);
        }
        CommandHint { display: self.display.clone(), complete_up_to: self.complete_up_to }
    }
}

impl CommandHint {
    #[verifier::type_invariant]
    spec fn inv(&self) -> bool {
        self.complete_up_to <= self.display@.len()
    }

    /// The hint that shows `text`, of which the leading part `complete_up_to`
    /// is inserted when the hint is taken.
    pub fn new(text: &str, complete_up_to: &str) -> (hint: CommandHint)
        requires
            complete_up_to@.is_prefix_of(text@),
        ensures
            hint@.display == text@,
            hint@.complete_up_to == complete_up_to@.len(),
            hint@.wf(),
    {
        CommandHint { display: String::from_str(text), complete_up_to: complete_up_to.unicode_len() }
    }

    /// The hint without its first `strip_chars` characters; the part to
    /// insert shrinks by as much, down to nothing.
    pub fn suffix(&self, strip_chars: usize) -> (rest: CommandHint)
        requires
            strip_chars <= self@.display.len(),
        ensures
            rest@ == self@.suffix(strip_chars as nat),
            rest@.wf(),
    {
        proof {
            use_type_invariant(self);
        }
        let text = self.display.as_str();
        let end = text.unicode_len();
        CommandHint {
            display: String::from_str(text.substring_char(strip_chars, end)),
            complete_up_to: if self.complete_up_to >= strip_chars {
                self.complete_up_to - strip_chars
            } else {
                0
            },
        }
    }

    /// The text to show.
    pub fn display(&self) -> (text: &str)
        ensures
            text@ == self@.display,
            self@.wf(),
    {
        proof {
            use_type_invariant(self);
        }
        self.display.as_str()
    }

    /// How many characters of the text are inserted when the hint is taken.
    pub fn complete_up_to(&self) -> (n: usize)
        ensures
            n == self@.complete_up_to,
            self@.wf(),
    {
        proof {
            use_type_invariant(self);
        }
        self.complete_up_to
    }

    /// The text to insert when the hint is taken, if there is any.
    pub fn completion(&self) -> (text: Option<&str>)
        ensures
            text is Some == self@.completion() is Some,
            text is Some ==> text->0@ == self@.completion()->0,
    {
        proof {
            use_type_invariant(self);
        }
        if self.complete_up_to > 0 {
            Some(self.display.as_str().substring_char(0, self.complete_up_to))
        } else {
            None
        }
    }

    /// Whether the two hints show the same text and insert as much of it.
    pub fn same_as(&self, other: &CommandHint) -> (same: bool)
        ensures
            same == (self@ == other@),
    {
        self.complete_up_to == other.complete_up_to && same_text(
            self.display.as_str(),
            other.display.as_str(),
        )
    }
}

/// The models of a list of hints.
pub open spec fn hint_specs(hints: Seq<CommandHint>) -> Seq<HintSpec> {
    Seq::new(hints.len(), |i: int| hints[i]@)
}

/// No hint stands twice in `entries`.
pub open spec fn distinct(entries: Seq<HintSpec>) -> bool {
    forall|i: int, j: int| 0 <= i < j < entries.len() ==> entries[i] != entries[j]
}

/// Whether the entry at position `i` is the first of `entries` that is a
/// hint for `line`.
pub open spec fn is_first_match(entries: Seq<HintSpec>, line: Seq<char>, i: int) -> bool {
    &&& 0 <= i < entries.len()
    &&& entries[i].matches(line)
    &&& forall|j: int| 0 <= j < i ==> !(#[trigger] entries[j]).matches(line)
}

/// Whether a hint is offered at all for `line` with the cursor at `pos`: the
/// line is not empty and the cursor stands at its end.
pub open spec fn hint_wanted(line: Seq<char>, pos: nat) -> bool {
    line.len() > 0 && pos == line.len()
}

/// The registry of hints: a set that keeps its entries in the order in which
/// they were first put in.
#[derive(Debug)]
pub struct HintSet {
    entries: Vec<CommandHint>,
}

impl View for HintSet {
    type V = Seq<HintSpec>;

    closed spec fn view(&self) -> Seq<HintSpec> {
        hint_specs(self.entries@)
    }
}

impl HintSet {
    #[verifier::type_invariant]
    spec fn inv(&self) -> bool {
        distinct(hint_specs(self.entries@))
    }

    /// The empty registry.
    pub fn new() -> (set: HintSet)
        ensures
            set@ == Seq::<HintSpec>::empty(),
    {
        let set = HintSet { entries: Vec::new() };
        assert(set@ =~= Seq::<HintSpec>::empty());
        set
    }

    /// How many hints the registry holds.
    pub fn len(&self) -> (n: usize)
        ensures
            n == self@.len(),
            distinct(self@),
    {
        proof {
            use_type_invariant(self);
        }
        self.entries.len()
    }

    /// The hint at position `i`, in the order of registration.
    pub fn get(&self, i: usize) -> (hint: Option<&CommandHint>)
        ensures
            hint is Some == (i < self@.len()),
            hint is Some ==> hint->0@ == self@[i as int],
    {
        if i < self.entries.len() {
            Some(&self.entries[i])
        } else {
            None
        }
    }

    /// Whether the registry holds `hint`.
    pub fn contains(&self, hint: &CommandHint) -> (found: bool)
        ensures
            found == self@.contains(hint@),
    {
        let mut i: usize = 0;
        while i < self.entries.len()
            invariant
                i <= self.entries.len(),
                forall|j: int| 0 <= j < i ==> self@[j] != hint@,
            decreases self.entries.len() - i,
        {
            if self.entries[i].same_as(hint) {
                assert(self@[i as int] == hint@);
                return true;
            }
            i += 1;
        }
        false
    }

    /// Puts `hint` into the registry, behind the entries that are there,
    /// unless it holds an equal one already. Says whether the hint was added.
    pub fn insert(&mut self, hint: CommandHint) -> (added: bool)
        ensures
            added == !old(self)@.contains(hint@),
            final(self)@ == if added {
                old(self)@.push(hint@)
            } else {
                old(self)@
            },
            distinct(final(self)@),
    {
        proof {
            use_type_invariant(&*self);
        }
        if self.contains(&hint) {
            false
        } else {
            let ghost before = self@;
            let mut taken = HintSet { entries: Vec::new() };
            std::mem::swap(self, &mut taken);
            let mut entries = taken.entries;
            entries.push(hint);
            proof {
                let after = hint_specs(entries@);
                assert(after =~= before.push(hint@));
                assert forall|i: int, j: int| 0 <= i < j < after.len() implies after[i]
                    != after[j] by {
                    if j == before.len() {
                        assert(before[i] != hint@);
                    } else {
                        assert(before[i] != before[j]);
                    }
                }
            }
            *self = HintSet { entries };
            true
        }
    }
}

/// The hinter of the shell: a registry of hints, and the lookup in it.
#[derive(Debug)]
pub struct DIYHinter {
    pub hints: HintSet,
}

impl DIYHinter {
    /// The hint for `line` with the cursor in front of the character at
    /// position `pos`, counted in characters. There is one only if the line
    /// is not empty, the cursor stands at its end, and an entry of the
    /// registry begins with the line. It is then what the first such entry,
    /// in the order of registration, holds beyond the line.
    pub fn hint(&self, line: &str, pos: usize) -> (found: Option<CommandHint>)
        ensures
            match found {
                Some(hint) => hint_wanted(line@, pos as nat) && hint@.wf() && exists|i: int|
                    is_first_match(self.hints@, line@, i) && hint@ == (#[trigger] self.hints@[i]).suffix(
                        pos as nat,
                    ),
                None => !hint_wanted(line@, pos as nat) || forall|i: int|
                    0 <= i < self.hints@.len() ==> !(#[trigger] self.hints@[i]).matches(line@),
            },
    {
        let typed = to_chars(line);
        if typed.len() == 0 || pos != typed.len() {
            return None;
        }
        let mut i: usize = 0;
        while i < self.hints.entries.len()
            invariant
                typed@ == line@,
                0 < pos == typed.len(),
                i <= self.hints.entries.len(),
                forall|j: int| 0 <= j < i ==> !(#[trigger] self.hints@[j]).matches(line@),
            decreases self.hints.entries.len() - i,
        {
            let entry = &self.hints.entries[i];
            let shown = to_chars(entry.display());
            if starts_with(&shown, &typed) {
                let rest = entry.suffix(pos);
                assert(is_first_match(self.hints@, line@, i as int));
                assert(rest@ == self.hints@[i as int].suffix(pos as nat));
                return Some(rest);
            }
            i += 1;
        }
        None
    }
}

/// The registry that the shell starts with: hints for `exit`, `cd` and `ls`,
/// in this order, each inserted in full when it is taken.
pub fn diy_hints() -> (set: HintSet)
    ensures
        set@ == seq![
            HintSpec { display: "exit"@, complete_up_to: 4 },
            HintSpec { display: "cd"@, complete_up_to: 2 },
            HintSpec { display: "ls"@, complete_up_to: 2 },
        ],
{
    proof {
        reveal_strlit("exit");
        reveal_strlit("cd");
        reveal_strlit("ls");
    }
    let mut set = HintSet::new();
    let exit = CommandHint::new("exit", "exit");
    let cd = CommandHint::new("cd", "cd");
    let ls = CommandHint::new("ls", "ls");
    assert(exit@ == HintSpec { display: "exit"@, complete_up_to: 4 });
    assert(cd@ == HintSpec { display: "cd"@, complete_up_to: 2 });
    assert(ls@ == HintSpec { display: "ls"@, complete_up_to: 2 });
    assert("exit"@.len() != "cd"@.len());
    assert("cd"@[0] != "ls"@[0]);
    set.insert(exit);
    set.insert(cd);
    set.insert(ls);
    set
}

/// How an attempt to read a line ended.
#[derive(Debug, Clone, Copy, PartialEq, Eq, Structural)]
pub enum ReadEvent {
    /// A line was read.
    Line,
    /// The user interrupted the input.
    Interrupted,
    /// The input is at its end.
    Eof,
    /// The line editor failed.
    Failed,
}

/// What the shell does after an attempt to read a line.
#[derive(Debug, Clone, Copy, PartialEq, Eq, Structural)]
pub enum InputStep {
    /// Remember the line in the history and run it.
    Run,
    /// Show the notice for the event and end the process, with success.
    Quit,
    /// Report the error and end the shell loop with it.
    Fail,
}

/// What follows on `event`: an interrupt and the end of the input end the
/// whole process, any other failure ends the loop, and a line is run.
pub open spec fn input_step_of(event: ReadEvent) -> InputStep {
    match event {
        ReadEvent::Line => InputStep::Run,
        ReadEvent::Interrupted => InputStep::Quit,
        ReadEvent::Eof => InputStep::Quit,
        ReadEvent::Failed => InputStep::Fail,
    }
}

/// The notice shown before the process ends on `event`, if it ends on it.
pub open spec fn quit_notice_of(event: ReadEvent) -> Option<Seq<char>> {
    match event {
        ReadEvent::Interrupted => Some("CTRL-C"@),
        ReadEvent::Eof => Some("CTRL-D"@),
        _ => None,
    }
}

/// What the shell does after an attempt to read a line ended in `event`.
pub fn input_step(event: ReadEvent) -> (step: InputStep)
    ensures
        step == input_step_of(event),
{
    match event {
        ReadEvent::Line => InputStep::Run,
        ReadEvent::Interrupted => InputStep::Quit,
        ReadEvent::Eof => InputStep::Quit,
        ReadEvent::Failed => InputStep::Fail,
    }
}

/// The notice to show before the process ends on `event`. There is one
/// exactly for the events on which the shell quits.
pub fn quit_notice(event: ReadEvent) -> (notice: Option<&'static str>)
    ensures
        notice is Some == (input_step_of(event) == InputStep::Quit),
        match notice {
            Some(text) => quit_notice_of(event) == Some(text@),
            None => quit_notice_of(event) is None,
        },
{
    match event {
        ReadEvent::Interrupted => Some("CTRL-C"),
        ReadEvent::Eof => Some("CTRL-D"),
        _ => None,
    }
}

} // verus!
