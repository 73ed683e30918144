//! A staff register: who works in which department. Names are entered one by
//! one and listed in ascending order, by department or for the whole house.

use crate::commands::{Command, CommandText};
use crate::sequences::{first_index_of, lemma_first_index_is, lemma_first_index_of};
use crate::text::same_text;
use itertools::Itertools;
use vstd::prelude::*;
use vstd::relations::{sorted_by, total_ordering};
use vstd::string::*;

verus! {

/// The order of texts: character by character, by the number of the
/// character; a text comes before every longer text that starts with it.
pub open spec fn text_le(a: Seq<char>, b: Seq<char>) -> bool
    decreases a.len(),
{
    if a.len() == 0 {
        true
    } else if b.len() == 0 {
        false
    } else if a[0] == b[0] {
        text_le(a.drop_first(), b.drop_first())
    } else {
        a[0] < b[0]
    }
}

/// Every text stands in the order to itself.
pub proof fn lemma_text_le_reflexive(a: Seq<char>)
    ensures
        text_le(a, a),
    decreases a.len(),
{
    if a.len() > 0 {
        lemma_text_le_reflexive(a.drop_first());
    }
}

/// Two texts that stand in the order both ways are the same text.
pub proof fn lemma_text_le_antisymmetric(a: Seq<char>, b: Seq<char>)
    requires
        text_le(a, b),
        text_le(b, a),
    ensures
        a == b,
    decreases a.len(),
{
    if a.len() == 0 || b.len() == 0 {
        assert(a =~= b);
    } else {
        lemma_text_le_antisymmetric(a.drop_first(), b.drop_first());
        assert(a =~= seq![a[0]] + a.drop_first());
        assert(b =~= seq![b[0]] + b.drop_first());
    }
}

/// The order carries over a text in the middle.
pub proof fn lemma_text_le_transitive(a: Seq<char>, b: Seq<char>, c: Seq<char>)
    requires
        text_le(a, b),
        text_le(b, c),
    ensures
        text_le(a, c),
    decreases a.len(),
{
    if a.len() > 0 && a[0] == b[0] && b[0] == c[0] {
        lemma_text_le_transitive(a.drop_first(), b.drop_first(), c.drop_first());
    }
}

/// Of two texts, one stands before the other or they are the same.
pub proof fn lemma_text_le_connected(a: Seq<char>, b: Seq<char>)
    ensures
        text_le(a, b) || text_le(b, a),
    decreases a.len(),
{
    if a.len() > 0 && b.len() > 0 && a[0] == b[0] {
        lemma_text_le_connected(a.drop_first(), b.drop_first());
    }
}

/// The order of texts is a total order, so the ascending arrangement of
/// given texts is one arrangement only.
pub proof fn law_text_order_is_total()
    ensures
        total_ordering(|a: Seq<char>, b: Seq<char>| text_le(a, b)),
{
    let le = |a: Seq<char>, b: Seq<char>| text_le(a, b);
    assert forall|a: Seq<char>| #[trigger] le(a, a) by {
        lemma_text_le_reflexive(a);
    }
    assert forall|a: Seq<char>, b: Seq<char>| #[trigger] le(a, b) && #[trigger] le(b, a) implies a
        == b by {
        lemma_text_le_antisymmetric(a, b);
    }
    assert forall|a: Seq<char>, b: Seq<char>, c: Seq<char>| #[trigger]
        le(a, b) && #[trigger] le(b, c) implies le(a, c) by {
        lemma_text_le_transitive(a, b, c);
    }
    assert forall|a: Seq<char>, b: Seq<char>| #[trigger] le(a, b) || #[trigger] le(b, a) by {
        lemma_text_le_connected(a, b);
    }
}

/// `texts` stand in ascending order.
pub open spec fn ascending(texts: Seq<Seq<char>>) -> bool {
    sorted_by(texts, |a: Seq<char>, b: Seq<char>| text_le(a, b))
}

/// `a` and `b` hold the same texts, each as often as the other, in whatever
/// order.
pub open spec fn same_texts(a: Seq<Seq<char>>, b: Seq<Seq<char>>) -> bool {
    a.to_multiset() == b.to_multiset()
}

/// Calls `slice::sort` on the names, which sorts them in place into ascending
/// order. Strings are ordered by their bytes, which is the order of their
/// characters' numbers. Afterwards the vector holds the texts it held before,
/// in ascending order.
#[verifier::external_body]
fn sort_names(names: &mut Vec<String>)
    ensures
        ascending(final(names).deep_view()),
        same_texts(final(names).deep_view(), old(names).deep_view()),
{
    names.sort();
}

/// Calls `Itertools::sorted` on the names, which sorts all elements into a
/// new iterator in ascending order, and collects them. The result holds the
/// texts of `names`, in ascending order.
#[verifier::external_body]
fn sorted_names(names: Vec<String>) -> (sorted: Vec<String>)
    ensures
        ascending(sorted.deep_view()),
        same_texts(sorted.deep_view(), names.deep_view()),
{
    names.into_iter().sorted().collect()
}

/// A department and its staff, in the order in which they were entered.
pub struct Department {
    pub name: String,
    pub staff: Vec<String>,
}

impl View for Department {
    type V = (Seq<char>, Seq<Seq<char>>);

    open spec fn view(&self) -> (Seq<char>, Seq<Seq<char>>) {
        (self.name@, self.staff.deep_view())
    }
}

/// The names of the departments of a register, in its order.
pub open spec fn names_of(chart: Seq<(Seq<char>, Seq<Seq<char>>)>) -> Seq<Seq<char>> {
    chart.map_values(|section: (Seq<char>, Seq<Seq<char>>)| section.0)
}

/// No department stands twice in the register.
pub open spec fn distinct_departments(chart: Seq<(Seq<char>, Seq<Seq<char>>)>) -> bool {
    forall|i: int, j: int|
        0 <= i < j < chart.len() ==> (#[trigger] chart[i]).0 != (#[trigger] chart[j]).0
}

/// Where `department` stands in the register, or the length of the register
/// where it is not entered.
pub open spec fn position_of(
    chart: Seq<(Seq<char>, Seq<Seq<char>>)>,
    department: Seq<char>,
) -> int {
    first_index_of(names_of(chart), department)
}

/// Whether `department` is entered in the register.
pub open spec fn has_department(
    chart: Seq<(Seq<char>, Seq<Seq<char>>)>,
    department: Seq<char>,
) -> bool {
    position_of(chart, department) < chart.len()
}

/// The staff of `department`, in the order of entry.
pub open spec fn staff_of(
    chart: Seq<(Seq<char>, Seq<Seq<char>>)>,
    department: Seq<char>,
) -> Seq<Seq<char>>
    recommends
        has_department(chart, department),
{
    chart[position_of(chart, department)].1
}

/// The register after `name` was entered in `department`: the name joins the
/// staff of the department at its end; a department that was not entered yet
/// joins the register at its end, with the name as its staff.
pub open spec fn with_added(
    chart: Seq<(Seq<char>, Seq<Seq<char>>)>,
    name: Seq<char>,
    department: Seq<char>,
) -> Seq<(Seq<char>, Seq<Seq<char>>)> {
    if has_department(chart, department) {
        let at = position_of(chart, department);
        chart.update(at, (department, chart[at].1.push(name)))
    } else {
        chart.push((department, seq![name]))
    }
}

/// What the register answers to a command.
pub enum Reply {
    /// The name was entered; there is nothing to show.
    Added,
    /// The staff of the department asked for, in ascending order.
    Staff { department: String, names: Vec<String> },
    /// Nobody works in the department asked for.
    NoSuchDepartment,
    /// Every department in ascending order, each with its staff in
    /// ascending order.
    Everyone { sections: Vec<Department> },
    /// The register is left.
    Goodbye,
    /// The command was not understood.
    InputError,
}

/// The register.
pub struct OrgChart {
    departments: Vec<Department>,
}

impl View for OrgChart {
    type V = Seq<(Seq<char>, Seq<Seq<char>>)>;

    closed spec fn view(&self) -> Seq<(Seq<char>, Seq<Seq<char>>)> {
        self.departments@.map_values(|department: Department| department@)
    }
}

/// A copy of `names`.
pub fn copy_names(names: &Vec<String>) -> (copy: Vec<String>)
    ensures
        copy.deep_view() == names.deep_view(),
{
    let mut copy: Vec<String> = Vec::new();
    let mut at: usize = 0;
    while at < names.len()
        invariant
            at <= names@.len(),
            copy@.len() == at,
            forall|i: int| 0 <= i < at ==> copy@[i]@ == names@[i]@,
        decreases names@.len() - at,
    {
        copy.push(names[at].clone());
        at += 1;
    }
    proof {
        assert(copy.deep_view() =~= names.deep_view());
    }
    copy
}

impl OrgChart {
    /// What every register satisfies: no department stands in it twice.
    #[verifier::type_invariant]
    pub closed spec fn well_formed(&self) -> bool {
        distinct_departments(self@)
    }

    /// The empty register.
    pub fn new() -> (chart: OrgChart)
        ensures
            chart@.len() == 0,
    {
        OrgChart { departments: Vec::new() }
    }

    /// Where `department` stands in the register, or the number of
    /// departments where it is not entered.
    pub fn position(&self, department: &str) -> (at: usize)
        ensures
            at == position_of(self@, department@),
            at <= self@.len(),
            distinct_departments(self@),
    {
        proof {
            use_type_invariant(self);
        }
        let ghost names = names_of(self@);
        let mut at: usize = 0;
        while at < self.departments.len()
            invariant
                at <= self.departments@.len(),
                names == names_of(self@),
                self@.len() == self.departments@.len(),
                distinct_departments(self@),
                forall|i: int| 0 <= i < at ==> names[i] != department@,
            decreases self.departments@.len() - at,
        {
            proof {
                assert(names[at as int] == self.departments@[at as int].name@);
            }
            if same_text(self.departments[at].name.as_str(), department) {
                proof {
                    lemma_first_index_is(names, department@, at as int);
                }
                return at;
            }
            at += 1;
        }
        proof {
            lemma_first_index_is(names, department@, at as int);
        }
        at
    }

    /// The register after `name` was entered in `department`.
    pub fn add(self, name: String, department: String) -> (next: OrgChart)
        ensures
            next@ == with_added(self@, name@, department@),
    {
        let at = self.position(department.as_str());
        let ghost before = self@;
        proof {
            lemma_first_index_of(names_of(before), department@);
        }
        let mut departments = self.departments;
        if at < departments.len() {
            let mut staff = copy_names(&departments[at].staff);
            let ghost old_staff = staff.deep_view();
            staff.push(name);
            proof {
                assert(staff.deep_view() =~= old_staff.push(name@));
                assert(names_of(before)[at as int] == before[at as int].0);
            }
            departments.set(at, Department { name: department, staff });
        } else {
            let mut staff: Vec<String> = Vec::new();
            staff.push(name);
            proof {
                assert(staff.deep_view() =~= seq![name@]);
            }
            departments.push(Department { name: department, staff });
        }
        let ghost after = departments@.map_values(|department: Department| department@);
        proof {
            assert(after =~= with_added(before, name@, department@));
            assert forall|i: int, j: int| 0 <= i < j < after.len() implies (#[trigger] after[i]).0
                != (#[trigger] after[j]).0 by {
                assert(after[i].0 == before[i].0);
                if j < before.len() {
                    assert(after[j].0 == before[j].0);
                } else {
                    assert(names_of(before)[i] == before[i].0);
                }
            }
        }
        OrgChart { departments }
    }

    /// The staff of `department` in ascending order, where the department is
    /// entered.
    pub fn list(&self, department: &str) -> (names: Option<Vec<String>>)
        ensures
            names is Some <==> has_department(self@, department@),
            names matches Some(sorted) ==> {
                &&& ascending(sorted.deep_view())
                &&& same_texts(sorted.deep_view(), staff_of(self@, department@))
            },
    {
        let at = self.position(department);
        if at < self.departments.len() {
            let mut names = copy_names(&self.departments[at].staff);
            sort_names(&mut names);
            Some(names)
        } else {
            None
        }
    }

    /// The names of the departments, in the order of the register.
    pub fn department_names(&self) -> (names: Vec<String>)
        ensures
            names.deep_view() == names_of(self@),
    {
        let mut names: Vec<String> = Vec::new();
        let mut at: usize = 0;
        while at < self.departments.len()
            invariant
                at <= self.departments@.len(),
                names@.len() == at,
                forall|i: int| 0 <= i < at ==> names@[i]@ == self.departments@[i].name@,
            decreases self.departments@.len() - at,
        {
            names.push(self.departments[at].name.clone());
            at += 1;
        }
        proof {
            assert(names.deep_view() =~= names_of(self@));
        }
        names
    }

    /// Every department in ascending order, each with its staff in ascending
    /// order.
    pub fn all(&self) -> (sections: Vec<Department>)
        ensures
            sections@.len() == self@.len(),
            ascending(sections@.map_values(|section: Department| section.name@)),
            same_texts(sections@.map_values(|section: Department| section.name@), names_of(self@)),
            forall|i: int|
                0 <= i < sections@.len() ==> {
                    &&& has_department(self@, (#[trigger] sections@[i]).name@)
                    &&& ascending(sections@[i].staff.deep_view())
                    &&& same_texts(
                        sections@[i].staff.deep_view(),
                        staff_of(self@, sections@[i].name@),
                    )
                },
    {
        let sorted = sorted_names(self.department_names());
        let ghost headings = sorted.deep_view();
        proof {
            headings.to_multiset_ensures();
            names_of(self@).to_multiset_ensures();
            assert(headings.len() == headings.to_multiset().len());
            assert(names_of(self@).len() == names_of(self@).to_multiset().len());
        }
        let mut sections: Vec<Department> = Vec::new();
        let mut at: usize = 0;
        while at < sorted.len()
            invariant
                at <= sorted@.len(),
                headings == sorted.deep_view(),
                same_texts(headings, names_of(self@)),
                sections@.len() == at,
                forall|i: int| 0 <= i < at ==> (#[trigger] sections@[i]).name@ == headings[i],
                forall|i: int|
                    0 <= i < at ==> {
                        &&& has_department(self@, (#[trigger] sections@[i]).name@)
                        &&& ascending(sections@[i].staff.deep_view())
                        &&& same_texts(
                            sections@[i].staff.deep_view(),
                            staff_of(self@, sections@[i].name@),
                        )
                    },
            decreases sorted@.len() - at,
        {
            let heading = sorted[at].clone();
            proof {
                headings.to_multiset_ensures();
                names_of(self@).to_multiset_ensures();
                assert(headings[at as int] == heading@);
                assert(headings.contains(heading@));
                assert(headings.to_multiset().count(heading@) > 0);
                assert(names_of(self@).to_multiset().count(heading@) > 0);
                assert(names_of(self@).contains(heading@));
                lemma_first_index_of(names_of(self@), heading@);
                let k = choose|k: int|
                    0 <= k < names_of(self@).len() && names_of(self@)[k] == heading@;
                assert(position_of(self@, heading@) <= k);
            }
            let staff = match self.list(heading.as_str()) {
                Some(staff) => staff,
                None => Vec::new(),
            };
            sections.push(Department { name: heading, staff });
            at += 1;
        }
        proof {
            assert(sections@.map_values(|section: Department| section.name@) =~= headings);
        }
        sections
    }

    /// Carries out `command`: the register afterwards, and the answer.
    pub fn respond(self, command: Command) -> (out: (OrgChart, Reply))
        ensures
            match command@ {
                CommandText::Add { name, department } => {
                    &&& out.0@ == with_added(self@, name, department)
                    &&& out.1 is Added
                },
                CommandText::List { department } => {
                    &&& out.0@ == self@
                    &&& if has_department(self@, department) {
                        &&& out.1 matches Reply::Staff { department: asked, names }
                        &&& asked@ == department
                        &&& ascending(names.deep_view())
                        &&& same_texts(names.deep_view(), staff_of(self@, department))
                    } else {
                        out.1 is NoSuchDepartment
                    }
                },
                CommandText::All => {
                    &&& out.0@ == self@
                    &&& out.1 matches Reply::Everyone { sections }
                    &&& sections@.len() == self@.len()
                    &&& ascending(sections@.map_values(|section: Department| section.name@))
                    &&& same_texts(
                        sections@.map_values(|section: Department| section.name@),
                        names_of(self@),
                    )
                    &&& forall|i: int|
                        0 <= i < sections@.len() ==> {
                            &&& has_department(self@, (#[trigger] sections@[i]).name@)
                            &&& ascending(sections@[i].staff.deep_view())
                            &&& same_texts(
                                sections@[i].staff.deep_view(),
                                staff_of(self@, sections@[i].name@),
                            )
                        }
                },
                CommandText::Quit => out.0@ == self@ && out.1 is Goodbye,
                CommandText::InputError => out.0@ == self@ && out.1 is InputError,
            },
    {
        match command {
            Command::Add { name, department } => (self.add(name, department), Reply::Added),
            Command::List { department } => {
                let reply = match self.list(department.as_str()) {
                    Some(names) => Reply::Staff { department, names },
                    None => Reply::NoSuchDepartment,
                };
                (self, reply)
            },
            Command::All => {
                let sections = self.all();
                (self, Reply::Everyone { sections })
            },
            Command::Quit => (self, Reply::Goodbye),
            Command::InputError => (self, Reply::InputError),
        }
    }
}

} // verus!
