use exercises::treehouse::{is_visitor_allowed, session_step, Visitor, VisitorAction};

fn seed_roster() -> Vec<Visitor> {
    vec![
        Visitor::new("simon", VisitorAction::Accept, 31),
        Visitor::new(
            "dexter",
            VisitorAction::AcceptWithNote {
                note: String::from("Lactose-free milk is in the fridge"),
            },
            1,
        ),
        Visitor::new("luffy", VisitorAction::Probation, 1),
        Visitor::new("maria", VisitorAction::Refuse, 20),
    ]
}

#[test]
fn accepted_visitor_gets_only_the_welcome_line() {
    let mut roster = seed_roster();
    let lines = is_visitor_allowed(&mut roster, &"simon".to_string());
    assert_eq!(lines, vec!["Welcome to the tree house, simon".to_string()]);
    assert_eq!(roster.len(), 4);
}

#[test]
fn underage_note_visitor_gets_note_and_warning() {
    let mut roster = seed_roster();
    let lines = is_visitor_allowed(&mut roster, &"dexter".to_string());
    assert_eq!(
        lines,
        vec![
            "Welcome to the tree house, dexter".to_string(),
            "Lactose-free milk is in the fridge".to_string(),
            "Do not server alchol to dexter".to_string(),
        ]
    );
}

#[test]
fn of_age_note_visitor_gets_note_without_warning() {
    let mut roster = vec![Visitor::new(
        "dexter",
        VisitorAction::AcceptWithNote {
            note: String::from("X"),
        },
        21,
    )];
    let lines = is_visitor_allowed(&mut roster, &"dexter".to_string());
    assert_eq!(
        lines,
        vec![
            "Welcome to the tree house, dexter".to_string(),
            "X".to_string(),
        ]
    );
}

#[test]
fn refused_visitor_gets_only_the_refusal_line() {
    let mut roster = seed_roster();
    let lines = is_visitor_allowed(&mut roster, &"maria".to_string());
    assert_eq!(lines, vec!["Do not allow maria in!".to_string()]);
    assert_eq!(roster.len(), 4);
}

#[test]
fn probation_visitor_gets_only_the_probation_line() {
    let mut roster = seed_roster();
    let lines = is_visitor_allowed(&mut roster, &"luffy".to_string());
    assert_eq!(lines, vec!["luffy is now a probation member".to_string()]);
}

#[test]
fn unknown_visitor_is_reported_and_added_under_probation() {
    let mut roster = seed_roster();
    let lines = is_visitor_allowed(&mut roster, &"zoro".to_string());
    assert_eq!(lines, vec!["zoro is not on the visitor list.".to_string()]);
    assert_eq!(roster.len(), 5);
    let added = &roster[4];
    assert_eq!(added.name, "zoro");
    assert!(matches!(added.action, VisitorAction::Probation));
    assert_eq!(added.age, 0);
}

#[test]
fn lookup_is_case_insensitive_after_folding() {
    let mut roster = seed_roster();
    let query = "SIMON".trim().to_lowercase();
    let lines = is_visitor_allowed(&mut roster, &query);
    assert_eq!(lines, vec!["Welcome to the tree house, simon".to_string()]);
    assert_eq!(roster.len(), 4);
}

#[test]
fn stored_names_are_folded_to_lower_case() {
    let mut roster = vec![Visitor::new("SIMON", VisitorAction::Accept, 31)];
    assert_eq!(roster[0].name, "simon");
    let lines = is_visitor_allowed(&mut roster, &"simon".to_string());
    assert_eq!(lines, vec!["Welcome to the tree house, simon".to_string()]);
}

#[test]
fn empty_input_ends_the_session_without_touching_the_roster() {
    let mut roster = seed_roster();
    let (quit, lines) = session_step(&mut roster, &String::new());
    assert!(quit);
    assert!(lines.is_empty());
    assert_eq!(roster.len(), 4);
    assert_eq!(roster[0].name, "simon");
    assert_eq!(roster[3].name, "maria");
}

#[test]
fn nonempty_input_runs_one_lookup() {
    let mut roster = seed_roster();
    let (quit, lines) = session_step(&mut roster, &"zoro".to_string());
    assert!(!quit);
    assert_eq!(lines, vec!["zoro is not on the visitor list.".to_string()]);
    assert_eq!(roster.len(), 5);
    assert_eq!(roster[4].name, "zoro");
}
