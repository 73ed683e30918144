use workbook::commands::Command;
use workbook::staff::{copy_names, Department, OrgChart, Reply};

fn filled() -> OrgChart {
    let mut chart = OrgChart::new();
    for line in [
        "Add Sally to Engineering",
        "Add Joe to Engineering",
        "Add Bob to Engineering",
        "Add Chris to Analytics",
        "Add Sue to Analytics",
        "Add Amir to Sales",
    ] {
        let (next, reply) = chart.respond(Command::parse_line(line));
        assert!(matches!(reply, Reply::Added));
        chart = next;
    }
    chart
}

fn shown(sections: &[Department]) -> Vec<(String, Vec<String>)> {
    sections
        .iter()
        .map(|section| (section.name.clone(), section.staff.clone()))
        .collect()
}

#[test]
fn departments_stand_in_the_order_of_entry() {
    let chart = filled();
    assert_eq!(
        vec!["Engineering", "Analytics", "Sales"],
        chart.department_names()
    );
    assert_eq!(0, chart.position("Engineering"));
    assert_eq!(1, chart.position("Analytics"));
    assert_eq!(2, chart.position("Sales"));
    assert_eq!(3, chart.position("Marketing"));
    assert_eq!(0, OrgChart::new().position("Sales"));
}

#[test]
fn staff_is_listed_in_ascending_order() {
    let chart = filled();
    assert_eq!(
        Some(vec![
            String::from("Bob"),
            String::from("Joe"),
            String::from("Sally")
        ]),
        chart.list("Engineering")
    );
    assert_eq!(
        Some(vec![String::from("Chris"), String::from("Sue")]),
        chart.list("Analytics")
    );
    assert_eq!(Some(vec![String::from("Amir")]), chart.list("Sales"));
    assert_eq!(None, chart.list("Marketing"));
    assert_eq!(None, chart.list("engineering"));
}

#[test]
fn everyone_is_listed_by_department() {
    let chart = filled();
    assert_eq!(
        vec![
            (
                String::from("Analytics"),
                vec![String::from("Chris"), String::from("Sue")]
            ),
            (
                String::from("Engineering"),
                vec![
                    String::from("Bob"),
                    String::from("Joe"),
                    String::from("Sally")
                ]
            ),
            (String::from("Sales"), vec![String::from("Amir")]),
        ],
        shown(&chart.all())
    );
    assert!(OrgChart::new().all().is_empty());
}

#[test]
fn capitals_come_before_small_letters() {
    let mut chart = OrgChart::new();
    for name in ["b", "a", "B", "\u{e9}", "ab", "", "A"] {
        chart = chart.add(String::from(name), String::from("x"));
    }
    assert_eq!(
        Some(vec![
            String::from(""),
            String::from("A"),
            String::from("B"),
            String::from("a"),
            String::from("ab"),
            String::from("b"),
            String::from("\u{e9}"),
        ]),
        chart.list("x")
    );
}

#[test]
fn a_name_entered_twice_is_listed_twice() {
    let chart = OrgChart::new()
        .add(String::from("Sue"), String::from("Sales"))
        .add(String::from("Amir"), String::from("Sales"))
        .add(String::from("Sue"), String::from("Sales"));
    assert_eq!(
        Some(vec![
            String::from("Amir"),
            String::from("Sue"),
            String::from("Sue")
        ]),
        chart.list("Sales")
    );
    assert_eq!(vec!["Sales"], chart.department_names());
}

#[test]
fn commands_are_answered() {
    let chart = filled();
    let (chart, reply) = chart.respond(Command::parse_line("List Sales"));
    match reply {
        Reply::Staff { department, names } => {
            assert_eq!("Sales", department);
            assert_eq!(vec!["Amir"], names);
        }
        _ => panic!("expected the staff of Sales"),
    }
    let (chart, reply) = chart.respond(Command::parse_line("List Nowhere"));
    assert!(matches!(reply, Reply::NoSuchDepartment));
    let (chart, reply) = chart.respond(Command::parse_line("All"));
    match reply {
        Reply::Everyone { sections } => {
            let names: Vec<String> = sections.iter().map(|s| s.name.clone()).collect();
            assert_eq!(vec!["Analytics", "Engineering", "Sales"], names);
        }
        _ => panic!("expected every department"),
    }
    let (chart, reply) = chart.respond(Command::parse_line("What now"));
    assert!(matches!(reply, Reply::InputError));
    let (chart, reply) = chart.respond(Command::parse_line("Quit"));
    assert!(matches!(reply, Reply::Goodbye));
    assert_eq!(
        vec!["Engineering", "Analytics", "Sales"],
        chart.department_names()
    );
}

#[test]
fn names_are_copied_as_they_stand() {
    let names = vec![String::from("b"), String::from("a"), String::new()];
    assert_eq!(names, copy_names(&names));
    assert!(copy_names(&vec![]).is_empty());
}
