//! Visitor directory: an in-memory roster of visitors, each tagged with
//! an admission decision, driven by name lookups from a console session.
//!
//! A lookup scans the roster for the first entry whose stored
//! (lower-cased) name equals the queried name, and yields the greeting
//! lines that the console prints; an unknown name is reported and then
//! appended to the roster under probation with age 0.

use vstd::prelude::*;
use vstd::string::StringExecFns;

verus! {

/// Names what `str::to_lowercase` returns: the lowercase equivalent of
/// a sequence of characters, a function of those characters alone.
pub uninterp spec fn lower_of(s: Seq<char>) -> Seq<char>;

/// Relies on `str::to_lowercase`: returns the lowercase equivalent of
/// the slice, depending on its characters alone.
#[verifier::external_body]
fn to_lowercase(s: &str) -> (r: String)
    ensures
        r@ == lower_of(s@),
{
    s.to_lowercase()
}

/// The admission decision attached to a roster entry.
#[derive(Debug)]
pub enum VisitorAction {
    Accept,
    AcceptWithNote { note: String },
    Refuse,
    Probation,
}

/// One roster entry: a lower-cased name, an admission decision, and an
/// age that only gates the alcohol warning of `AcceptWithNote`.
#[derive(Debug)]
pub struct Visitor {
    pub name: String,
    pub action: VisitorAction,
    pub age: i8,
}

/// The welcome line of an accepted visitor.
pub open spec fn welcome_line(name: Seq<char>) -> Seq<char> {
    "Welcome to the tree house, "@ + name
}

/// The warning line appended for an accepted-with-note visitor under 21.
pub open spec fn warning_line(name: Seq<char>) -> Seq<char> {
    "Do not server alchol to "@ + name
}

/// The notice line of a visitor on probation.
pub open spec fn probation_line(name: Seq<char>) -> Seq<char> {
    name + " is now a probation member"@
}

/// The refusal line of a refused visitor.
pub open spec fn refusal_line(name: Seq<char>) -> Seq<char> {
    "Do not allow "@ + name + " in!"@
}

/// The notice line for a name that is not on the roster.
pub open spec fn unknown_line(name: Seq<char>) -> Seq<char> {
    name + " is not on the visitor list."@
}

/// The exact lines printed when greeting a known visitor, by decision:
/// `Accept` gets the welcome line alone; `AcceptWithNote` gets the
/// welcome line, the note, and, only under age 21, the warning line;
/// `Probation` and `Refuse` get their single line.
pub open spec fn spec_greeting(v: Visitor) -> Seq<Seq<char>> {
    match v.action {
        VisitorAction::Accept => seq![welcome_line(v.name@)],
        VisitorAction::AcceptWithNote { note } => if v.age < 21 {
            seq![welcome_line(v.name@), note@, warning_line(v.name@)]
        } else {
            seq![welcome_line(v.name@), note@]
        },
        VisitorAction::Probation => seq![probation_line(v.name@)],
        VisitorAction::Refuse => seq![refusal_line(v.name@)],
    }
}

/// Whether some roster entry stores exactly this (already folded) name.
pub open spec fn has_match(roster: Seq<Visitor>, name: Seq<char>) -> bool {
    exists|j: int| 0 <= j < roster.len() && roster[j].name@ == name
}

/// Whether `j` is the first roster index whose entry stores this name.
pub open spec fn is_first_match(roster: Seq<Visitor>, name: Seq<char>, j: int) -> bool {
    &&& 0 <= j < roster.len()
    &&& roster[j].name@ == name
    &&& forall|k: int| 0 <= k < j ==> roster[k].name@ != name
}

/// What one lookup does: on a match, the roster is unchanged and the
/// lines are the greeting of the first matching entry; otherwise the
/// lines are the unknown-name notice and the roster grows by one entry
/// holding the folded name, `Probation`, and age 0.
pub open spec fn lookup_post(
    old_roster: Seq<Visitor>,
    new_roster: Seq<Visitor>,
    name: Seq<char>,
    lines: Seq<Seq<char>>,
) -> bool {
    &&& (has_match(old_roster, name) ==> {
        &&& new_roster == old_roster
        &&& exists|j: int|
            is_first_match(old_roster, name, j) && lines == spec_greeting(old_roster[j])
    })
    &&& (!has_match(old_roster, name) ==> {
        &&& lines == seq![unknown_line(name)]
        &&& new_roster.len() == old_roster.len() + 1
        &&& new_roster.subrange(0, old_roster.len() as int) == old_roster
        &&& new_roster.last().name@ == lower_of(name)
        &&& new_roster.last().action is Probation
        &&& new_roster.last().age == 0
    })
}

impl Visitor {
    /// Builds a roster entry, folding the name to lower case.
    pub fn new(name: &str, action: VisitorAction, age: i8) -> (v: Visitor)
        ensures
            v.name@ == lower_of(name@),
            v.action == action,
            v.age == age,
    {
        Visitor { name: to_lowercase(name), action, age }
    }

    /// The greeting lines for this visitor, exactly as `spec_greeting`
    /// lays them out.
    pub fn greet_visitor(&self) -> (lines: Vec<String>)
        ensures
            lines.deep_view() == spec_greeting(*self),
    {
        let mut lines: Vec<String> = Vec::new();
        match &self.action {
            VisitorAction::Accept => {
                let mut l = "Welcome to the tree house, ".to_owned();
                l.append(self.name.as_str());
                lines.push(l);
            },
            VisitorAction::AcceptWithNote { note } => {
                let mut l = "Welcome to the tree house, ".to_owned();
                l.append(self.name.as_str());
                lines.push(l);
                lines.push(note.clone());
                if self.age < 21 {
                    let mut w = "Do not server alchol to ".to_owned();
                    w.append(self.name.as_str());
                    lines.push(w);
                }
            },
            VisitorAction::Probation => {
                let mut l = self.name.clone();
                l.append(" is now a probation member");
                lines.push(l);
            },
            VisitorAction::Refuse => {
                let mut l = "Do not allow ".to_owned();
                l.append(self.name.as_str());
                l.append(" in!");
                lines.push(l);
            },
        }
        proof {
            assert(lines.deep_view() =~~= spec_greeting(*self));
        }
        lines
    }
}

/// Looks the (already folded) name up in the roster: greets the first
/// matching entry, or reports the name unknown and appends it under
/// probation. Returns the lines the console is to print.
pub fn is_visitor_allowed(visitors_list: &mut Vec<Visitor>, your_name: &String) -> (lines: Vec<
    String,
>)
    ensures
        lookup_post(old(visitors_list)@, final(visitors_list)@, your_name@, lines.deep_view()),
{
    let ghost roster0 = visitors_list@;
    let mut i: usize = 0;
    let n = visitors_list.len();
    while i < n
        invariant
            n == visitors_list@.len(),
            i <= n,
            visitors_list@ == roster0,
            forall|k: int| 0 <= k < i ==> roster0[k].name@ != your_name@,
        decreases n - i,
    {
        if visitors_list[i].name == *your_name {
            let lines = visitors_list[i].greet_visitor();
            proof {
                assert(is_first_match(roster0, your_name@, i as int));
            }
            return lines;
        }
        i += 1;
    }
    proof {
        assert(!has_match(roster0, your_name@));
    }
    let mut lines: Vec<String> = Vec::new();
    let mut l = your_name.clone();
    l.append(" is not on the visitor list.");
    lines.push(l);
    visitors_list.push(Visitor::new(your_name.as_str(), VisitorAction::Probation, 0));
    proof {
        assert(visitors_list@.subrange(0, roster0.len() as int) =~= roster0);
        assert(lines.deep_view() =~~= seq![unknown_line(your_name@)]);
    }
    lines
}

/// One step of the console session: empty input ends the session and
/// leaves the roster untouched; any other input is looked up, possibly
/// growing the roster. Returns whether to quit and the lines to print.
pub fn session_step(visitors_list: &mut Vec<Visitor>, input: &String) -> (r: (bool, Vec<String>))
    ensures
        r.0 <==> input@.len() == 0,
        input@.len() == 0 ==> final(visitors_list)@ == old(visitors_list)@ && r.1.deep_view()
            == Seq::<Seq<char>>::empty(),
        input@.len() != 0 ==> lookup_post(
            old(visitors_list)@,
            final(visitors_list)@,
            input@,
            r.1.deep_view(),
        ),
{
    if input.as_str().is_empty() {
        let lines: Vec<String> = Vec::new();
        proof {
            assert(lines.deep_view() =~~= Seq::<Seq<char>>::empty());
        }
        (true, lines)
    } else {
        let lines = is_visitor_allowed(visitors_list, input);
        (false, lines)
    }
}

/// An accepted visitor is greeted with exactly the welcome line and
/// nothing else: no note and no warning.
pub proof fn lemma_accept_greeting(v: Visitor)
    requires
        v.action is Accept,
    ensures
        spec_greeting(v) == seq![welcome_line(v.name@)],
{
}

/// A visitor accepted with a note is greeted with the welcome line and
/// the note verbatim; the warning line follows exactly when the age is
/// below 21.
pub proof fn lemma_note_greeting(v: Visitor, note: String)
    requires
        v.action == (VisitorAction::AcceptWithNote { note }),
    ensures
        v.age >= 21 ==> spec_greeting(v) == seq![welcome_line(v.name@), note@],
        v.age < 21 ==> spec_greeting(v) == seq![
            welcome_line(v.name@),
            note@,
            warning_line(v.name@),
        ],
{
}

/// A refused visitor gets exactly the refusal line.
pub proof fn lemma_refuse_greeting(v: Visitor)
    requires
        v.action is Refuse,
    ensures
        spec_greeting(v) == seq![refusal_line(v.name@)],
{
}

/// A visitor on probation gets exactly the probation line.
pub proof fn lemma_probation_greeting(v: Visitor)
    requires
        v.action is Probation,
    ensures
        spec_greeting(v) == seq![probation_line(v.name@)],
{
}

/// Matching is case-insensitive: a query whose folded form equals the
/// folded form of a stored raw name matches that entry, since both
/// sides of the comparison are folded.
pub proof fn lemma_case_insensitive_match(
    roster: Seq<Visitor>,
    j: int,
    raw_query: Seq<char>,
    raw_stored: Seq<char>,
)
    requires
        0 <= j < roster.len(),
        roster[j].name@ == lower_of(raw_stored),
        lower_of(raw_query) == lower_of(raw_stored),
    ensures
        has_match(roster, lower_of(raw_query)),
{
    assert(roster[j].name@ == lower_of(raw_query));
}

} // verus!
