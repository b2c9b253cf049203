//! A roster of employees by department, filled by commands of the form
//! `Add NAME to DEPARTMENT` and listed in name order.

use crate::text::{
    all_in_order, same_text, split_whitespace, str_views, string_views, trim, trimmed, words_of,
};
use vstd::prelude::*;
use vstd::string::StringExecFns;

verus! {

/// Someone on the roster.
#[derive(Clone, Debug)]
pub struct Employee {
    pub name: String,
}

/// A department of the company.
#[derive(Clone, Debug)]
pub struct Department {
    pub name: String,
}

/// The word that opens a command: `Add` or `add`.
pub open spec fn is_add(word: Seq<char>) -> bool {
    word == seq!['A', 'd', 'd'] || word == seq!['a', 'd', 'd']
}

/// The word between the name and the department: `to`, `To` or `TO`.
pub open spec fn is_to(word: Seq<char>) -> bool {
    word == seq!['t', 'o'] || word == seq!['T', 'o'] || word == seq!['T', 'O']
}

/// Index of the first `to` among `words` from `from` on, or the number of
/// words if there is none.
pub open spec fn first_to(words: Seq<Seq<char>>, from: int) -> int
    decreases words.len() - from,
{
    if from >= words.len() {
        words.len() as int
    } else if is_to(words[from]) {
        from
    } else {
        first_to(words, from + 1)
    }
}

/// The words in a row, a space before each.
pub open spec fn spaced(words: Seq<Seq<char>>) -> Seq<char>
    decreases words.len(),
{
    if words.len() == 0 {
        Seq::empty()
    } else {
        spaced(words.drop_last()) + seq![' '] + words.last()
    }
}

/// The words in a row, a space between what came so far and the next word
/// wherever anything came so far.
pub open spec fn joined(words: Seq<Seq<char>>) -> Seq<char>
    decreases words.len(),
{
    if words.len() == 0 {
        Seq::empty()
    } else {
        let before = joined(words.drop_last());
        if before.len() == 0 {
            words.last()
        } else {
            before + seq![' '] + words.last()
        }
    }
}

/// The employee's name and the department's that a command's words give.
/// Words that do not start with `Add` are no command. The name is the
/// second word and what follows it up to the first `to` behind it; the
/// department is what follows that `to`. Either may be empty.
pub open spec fn command_of(words: Seq<Seq<char>>) -> Option<(Seq<char>, Seq<char>)> {
    let mark = first_to(words, 2);
    if words.len() > 0 && !is_add(words[0]) {
        None
    } else if words.len() < 2 {
        Some((Seq::empty(), Seq::empty()))
    } else if mark < words.len() {
        Some((words[1] + spaced(words.subrange(2, mark)), joined(words.skip(mark + 1))))
    } else {
        Some((words[1] + spaced(words.subrange(2, mark)), Seq::empty()))
    }
}

/// The first `to` from `from` on stands at `mark` if none stands before it.
proof fn lemma_first_to(words: Seq<Seq<char>>, from: int, mark: int)
    requires
        0 <= from <= mark <= words.len(),
        forall|j: int| from <= j < mark ==> !is_to(words[j]),
        mark < words.len() ==> is_to(words[mark]),
    ensures
        first_to(words, from) == mark,
    decreases mark - from,
{
    if from < mark {
        lemma_first_to(words, from + 1, mark);
    }
}

/// Reads a command from its words.
pub fn parse_words(words: &Vec<&str>) -> (parsed: Option<(Employee, Department)>)
    ensures
        match command_of(str_views(words@)) {
            Some((name, department)) => parsed matches Some((employee, in_department))
                && employee.name@ == name && in_department.name@ == department,
            None => parsed is None,
        },
{
    proof {
        reveal_strlit("Add");
        reveal_strlit("add");
        reveal_strlit("to");
        reveal_strlit("To");
        reveal_strlit("TO");
        reveal_strlit(" ");
    }
    let ghost all = str_views(words@);
    let mut department_name = String::new();
    let mut employee_name = String::new();
    let mut found_name: bool = false;
    let ghost mut mark: int = 0;
    let mut idx: usize = 0;
    while idx < words.len()
        invariant
            idx <= words.len(),
            all == str_views(words@),
            " "@ == seq![' '],
            "Add"@ == seq!['A', 'd', 'd'],
            "add"@ == seq!['a', 'd', 'd'],
            "to"@ == seq!['t', 'o'],
            "To"@ == seq!['T', 'o'],
            "TO"@ == seq!['T', 'O'],
            idx >= 1 ==> is_add(all[0]),
            idx <= 1 ==> employee_name@.len() == 0 && department_name@.len() == 0 && !found_name,
            idx >= 2 && !found_name ==> {
                &&& employee_name@ == all[1] + spaced(all.subrange(2, idx as int))
                &&& department_name@.len() == 0
                &&& forall|j: int| 2 <= j < idx ==> !is_to(all[j])
            },
            found_name ==> {
                &&& 2 <= mark < idx
                &&& is_to(all[mark])
                &&& forall|j: int| 2 <= j < mark ==> !is_to(all[j])
                &&& employee_name@ == all[1] + spaced(all.subrange(2, mark))
                &&& department_name@ == joined(all.subrange(mark + 1, idx as int))
            },
        decreases words.len() - idx,
    {
        let word: &str = words[idx];
        assert(word@ == all[idx as int]);
        if idx == 0 && !(same_text(word, "Add") || same_text(word, "add")) {
            return None;
        }
        if idx == 1 {
            employee_name.append(word);
            assert(all.subrange(2, 2) == Seq::<Seq<char>>::empty());
            assert(employee_name@ == all[1] + spaced(all.subrange(2, 2)));
        }
        if idx > 1 {
            if !found_name {
                if same_text(word, "to") || same_text(word, "To") || same_text(word, "TO") {
                    found_name = true;
                    proof {
                        mark = idx as int;
                        assert(all.subrange(mark + 1, idx + 1) == Seq::<Seq<char>>::empty());
                    }
                } else {
                    employee_name.append(" ");
                    employee_name.append(word);
                    proof {
                        let longer = all.subrange(2, idx + 1);
                        assert(longer.drop_last() == all.subrange(2, idx as int));
                        assert(employee_name@ == all[1] + spaced(longer));
                    }
                }
            } else {
                proof {
                    let longer = all.subrange(mark + 1, idx + 1);
                    assert(longer.drop_last() == all.subrange(mark + 1, idx as int));
                }
                if !department_name.as_str().is_empty() {
                    department_name.append(" ");
                }
                department_name.append(word);
            }
        }
        idx += 1;
    }
    proof {
        if all.len() >= 2 {
            if found_name {
                lemma_first_to(all, 2, mark);
                assert(all.subrange(mark + 1, all.len() as int) == all.skip(mark + 1));
            } else {
                lemma_first_to(all, 2, all.len() as int);
            }
        }
    }
    Some((Employee { name: employee_name }, Department { name: department_name }))
}

/// Reads a command of the form `Add NAME to DEPARTMENT` from a line. The
/// words of the line are what whitespace separates.
pub fn parse_add_command(line: &str) -> (parsed: Option<(Employee, Department)>)
    ensures
        match command_of(words_of(line@)) {
            Some((name, department)) => parsed matches Some((employee, in_department))
                && employee.name@ == name && in_department.name@ == department,
            None => parsed is None,
        },
{
    let words = split_whitespace(line);
    parse_words(&words)
}

/// The employees of one department.
struct Staff {
    department: Department,
    employees: Vec<Employee>,
}

/// Employees by department. A department is entered when its first
/// employee is added, and departments stay in the order in which they were
/// entered.
pub struct Roster {
    entries: Vec<Staff>,
}

/// One department as it is shown: its name and the names of its employees.
#[derive(Debug)]
pub struct Listing {
    pub department: String,
    pub employees: Vec<String>,
}

/// What a line typed at the menu asks for.
#[derive(Clone, Copy, Debug, PartialEq, Eq, Structural)]
pub enum MenuChoice {
    AddEmployee,
    DisplayEmployees,
    Quit,
    Invalid,
}

/// The names of a list of employees.
pub open spec fn names_of(employees: Seq<Employee>) -> Seq<Seq<char>> {
    employees.map_values(|employee: Employee| employee.name@)
}

/// The names of the departments entered, in order.
pub open spec fn departments_of(entries: Seq<(Seq<char>, Seq<Seq<char>>)>) -> Seq<Seq<char>> {
    entries.map_values(|entry: (Seq<char>, Seq<Seq<char>>)| entry.0)
}

/// What a list of listings shows.
pub open spec fn listing_views(listings: Seq<Listing>) -> Seq<(Seq<char>, Seq<Seq<char>>)> {
    listings.map_values(
        |listing: Listing| (listing.department@, string_views(listing.employees@)),
    )
}

/// Position of the department called `department` among `entries`, or the
/// number of entries if none is called so.
pub open spec fn index_of(entries: Seq<(Seq<char>, Seq<Seq<char>>)>, department: Seq<char>) -> int
    decreases entries.len(),
{
    if entries.len() == 0 || entries[0].0 == department {
        0
    } else {
        1 + index_of(entries.skip(1), department)
    }
}

/// No two entries are of the same department.
pub open spec fn distinct_departments(entries: Seq<(Seq<char>, Seq<Seq<char>>)>) -> bool {
    forall|i: int, j: int| 0 <= i < j < entries.len() ==> entries[i].0 != entries[j].0
}

/// The entries after `name` has joined `department`: at the end of the
/// department's list if the department is entered, else as the only
/// employee of a new last entry.
pub open spec fn with_employee(
    entries: Seq<(Seq<char>, Seq<Seq<char>>)>,
    department: Seq<char>,
    name: Seq<char>,
) -> Seq<(Seq<char>, Seq<Seq<char>>)> {
    let at = index_of(entries, department);
    if 0 <= at < entries.len() {
        entries.update(at, (department, entries[at].1.push(name)))
    } else {
        entries.push((department, seq![name]))
    }
}

/// `after` holds the departments of `before` in the same order, each with
/// the same names as often as before, in the order of strings.
pub open spec fn is_sorted_form(
    after: Seq<(Seq<char>, Seq<Seq<char>>)>,
    before: Seq<(Seq<char>, Seq<Seq<char>>)>,
) -> bool {
    &&& after.len() == before.len()
    &&& forall|i: int|
        0 <= i < after.len() ==> {
            &&& (#[trigger] after[i]).0 == before[i].0
            &&& all_in_order(after[i].1)
            &&& after[i].1.to_multiset() == before[i].1.to_multiset()
        }
}

/// `All` or `all`: the choice of every department.
pub open spec fn is_all(choice: Seq<char>) -> bool {
    choice == seq!['A', 'l', 'l'] || choice == seq!['a', 'l', 'l']
}

/// The entries that a choice selects: all of them for `All` or `all`, else
/// the department of that name, if it is entered.
pub open spec fn selection_of(
    entries: Seq<(Seq<char>, Seq<Seq<char>>)>,
    choice: Seq<char>,
) -> Option<Seq<(Seq<char>, Seq<Seq<char>>)>> {
    let at = index_of(entries, choice);
    if is_all(choice) {
        Some(entries)
    } else if 0 <= at < entries.len() {
        Some(seq![entries[at]])
    } else {
        None
    }
}

/// What a line typed at the menu asks for, once trimmed.
pub open spec fn choice_of(typed: Seq<char>) -> MenuChoice {
    if typed == seq!['1'] {
        MenuChoice::AddEmployee
    } else if typed == seq!['2'] {
        MenuChoice::DisplayEmployees
    } else if typed == seq!['q'] {
        MenuChoice::Quit
    } else {
        MenuChoice::Invalid
    }
}

/// The department sought stands at `at` if it stands nowhere before.
proof fn lemma_index_of(
    entries: Seq<(Seq<char>, Seq<Seq<char>>)>,
    department: Seq<char>,
    at: int,
)
    requires
        0 <= at <= entries.len(),
        forall|j: int| 0 <= j < at ==> entries[j].0 != department,
        at < entries.len() ==> entries[at].0 == department,
    ensures
        index_of(entries, department) == at,
    decreases at,
{
    if at > 0 {
        let rest = entries.skip(1);
        assert forall|j: int| 0 <= j < at - 1 implies rest[j].0 != department by {
            assert(rest[j] == entries[j + 1]);
        }
        lemma_index_of(rest, department, at - 1);
    }
}

/// The position of a department is within the entries, and no entry
/// before it is of that department.
pub proof fn lemma_index_of_is_first(
    entries: Seq<(Seq<char>, Seq<Seq<char>>)>,
    department: Seq<char>,
)
    ensures
        0 <= index_of(entries, department) <= entries.len(),
        index_of(entries, department) < entries.len() ==> entries[index_of(
            entries,
            department,
        )].0 == department,
        forall|j: int| 0 <= j < index_of(entries, department) ==> entries[j].0 != department,
    decreases entries.len(),
{
    if entries.len() > 0 && entries[0].0 != department {
        let rest = entries.skip(1);
        lemma_index_of_is_first(rest, department);
        assert forall|j: int| 0 <= j < index_of(entries, department) implies entries[j].0
            != department by {
            if j > 0 {
                assert(rest[j - 1] == entries[j]);
            }
        }
    }
}

/// Adding an employee enters no department twice.
pub proof fn lemma_with_employee_keeps_distinct(
    entries: Seq<(Seq<char>, Seq<Seq<char>>)>,
    department: Seq<char>,
    name: Seq<char>,
)
    requires
        distinct_departments(entries),
    ensures
        distinct_departments(with_employee(entries, department, name)),
{
    lemma_index_of_is_first(entries, department);
}

impl View for Roster {
    type V = Seq<(Seq<char>, Seq<Seq<char>>)>;

    /// The departments in the order in which they were entered, each with
    /// the names of its employees as they stand now.
    closed spec fn view(&self) -> Seq<(Seq<char>, Seq<Seq<char>>)> {
        self.entries@.map_values(
            |staff: Staff| (staff.department.name@, names_of(staff.employees@)),
        )
    }
}

impl Roster {
    /// No department is entered twice.
    pub open spec fn wf(&self) -> bool {
        distinct_departments(self@)
    }

    /// A roster without departments.
    pub fn new() -> (roster: Roster)
        ensures
            roster.wf(),
            roster@ == Seq::<(Seq<char>, Seq<Seq<char>>)>::empty(),
    {
        Roster { entries: Vec::new() }
    }

    /// Where `department` is entered, or the number of entries.
    fn position(&self, department: &str) -> (at: usize)
        ensures
            at == index_of(self@, department@),
            at <= self.entries.len(),
    {
        let mut at: usize = 0;
        while at < self.entries.len() && !same_text(
            self.entries[at].department.name.as_str(),
            department,
        )
            invariant
                at <= self.entries.len(),
                forall|j: int| 0 <= j < at ==> self@[j].0 != department@,
            decreases self.entries.len() - at,
        {
            at += 1;
        }
        proof {
            lemma_index_of(self@, department@, at as int);
        }
        at
    }

    /// The names of the departments, in the order in which they were
    /// entered.
    pub fn department_names(&self) -> (names: Vec<String>)
        ensures
            string_views(names@) == departments_of(self@),
    {
        let mut names: Vec<String> = Vec::new();
        let mut i: usize = 0;
        while i < self.entries.len()
            invariant
                i <= self.entries.len(),
                string_views(names@) == departments_of(self@).take(i as int),
            decreases self.entries.len() - i,
        {
            let ghost before = names@;
            let name = self.entries[i].department.name.clone();
            names.push(name);
            proof {
                assert(string_views(names@) == string_views(before).push(name@));
                assert(departments_of(self@).take(i as int + 1) == departments_of(self@).take(
                    i as int,
                ).push(self@[i as int].0));
            }
            i += 1;
        }
        proof {
            assert(departments_of(self@).take(self@.len() as int) == departments_of(self@));
        }
        names
    }

    /// The entry at `at` as it is shown.
    fn listing(&self, at: usize) -> (listing: Listing)
        requires
            at < self.entries.len(),
        ensures
            (listing.department@, string_views(listing.employees@)) == self@[at as int],
    {
        let staff = &self.entries[at];
        let mut employees: Vec<String> = Vec::new();
        let mut i: usize = 0;
        while i < staff.employees.len()
            invariant
                i <= staff.employees.len(),
                string_views(employees@) == names_of(staff.employees@).take(i as int),
            decreases staff.employees.len() - i,
        {
            let ghost before = employees@;
            let name = staff.employees[i].name.clone();
            employees.push(name);
            proof {
                assert(string_views(employees@) == string_views(before).push(name@));
                assert(names_of(staff.employees@).take(i as int + 1) == names_of(
                    staff.employees@,
                ).take(i as int).push(staff.employees@[i as int].name@));
            }
            i += 1;
        }
        proof {
            assert(names_of(staff.employees@).take(staff.employees.len() as int) == names_of(
                staff.employees@,
            ));
        }
        Listing { department: staff.department.name.clone(), employees }
    }

    /// Puts the employees of every department in the order of their names.
    pub fn sort_employees(&mut self)
        requires
            old(self).wf(),
        ensures
            final(self).wf(),
            is_sorted_form(final(self)@, old(self)@),
    {
        let mut i: usize = 0;
        while i < self.entries.len()
            invariant
                i <= self.entries.len(),
                self.entries@.len() == old(self).entries@.len(),
                forall|j: int|
                    0 <= j < self.entries@.len() ==> {
                        &&& (#[trigger] self.entries@[j]).department == old(
                            self,
                        ).entries@[j].department
                        &&& names_of(self.entries@[j].employees@).to_multiset() == names_of(
                            old(self).entries@[j].employees@,
                        ).to_multiset()
                    },
                forall|j: int|
                    0 <= j < i ==> all_in_order(
                        names_of((#[trigger] self.entries@[j]).employees@),
                    ),
            decreases self.entries.len() - i,
        {
            let ghost before = self.entries@;
            sort_by_name(&mut self.entries[i].employees);
            proof {
                assert forall|j: int| 0 <= j < before.len() && j != i implies self.entries@[j]
                    == before[j] by {}
                assert(self.entries@[i as int].department == before[i as int].department);
            }
            i += 1;
        }
        proof {
            assert forall|j: int| 0 <= j < self@.len() implies {
                &&& (#[trigger] self@[j]).0 == old(self)@[j].0
                &&& all_in_order(self@[j].1)
                &&& self@[j].1.to_multiset() == old(self)@[j].1.to_multiset()
            } by {
                assert(self.entries@[j].department == old(self).entries@[j].department);
            }
            assert forall|a: int, b: int| 0 <= a < b < self@.len() implies self@[a].0
                != self@[b].0 by {
                assert(self@[a].0 == old(self)@[a].0);
                assert(self@[b].0 == old(self)@[b].0);
            }
        }
    }
}

/// `slice::sort_by` with the comparison of the employees' names: the same
/// employees, each as often as before, in the order of their names.
#[verifier::external_body]
fn sort_by_name(employees: &mut Vec<Employee>)
    ensures
        all_in_order(names_of(final(employees)@)),
        names_of(final(employees)@).to_multiset() == names_of(old(employees)@).to_multiset(),
{
    employees.sort_by(|a, b| a.name.cmp(&b.name));
}

/// Adds `employee` to `department`, entering the department if need be.
pub fn add_employee_to_map(
    employee: &Employee,
    department: &Department,
    employees_map: &mut Roster,
)
    requires
        old(employees_map).wf(),
    ensures
        final(employees_map).wf(),
        final(employees_map)@ == with_employee(
            old(employees_map)@,
            department.name@,
            employee.name@,
        ),
{
    let at = employees_map.position(department.name.as_str());
    let added = Employee { name: employee.name.clone() };
    proof {
        lemma_with_employee_keeps_distinct(
            old(employees_map)@,
            department.name@,
            employee.name@,
        );
        lemma_index_of_is_first(old(employees_map)@, department.name@);
    }
    if at < employees_map.entries.len() {
        employees_map.entries[at].employees.push(added);
        proof {
            let before = old(employees_map).entries@[at as int].employees@;
            assert(names_of(before.push(added)) == names_of(before).push(added.name@));
            assert(employees_map@ == with_employee(
                old(employees_map)@,
                department.name@,
                employee.name@,
            ));
        }
    } else {
        let mut employees: Vec<Employee> = Vec::new();
        employees.push(added);
        proof {
            assert(names_of(employees@) == seq![employee.name@]);
        }
        employees_map.entries.push(
            Staff { department: Department { name: department.name.clone() }, employees },
        );
        proof {
            assert(employees_map@ == with_employee(
                old(employees_map)@,
                department.name@,
                employee.name@,
            ));
        }
    }
}

/// Carries out the command that `line` holds, if it holds one, and says
/// whether it did.
pub fn update_employee_list(employees_map: &mut Roster, line: &str) -> (added: bool)
    requires
        old(employees_map).wf(),
    ensures
        final(employees_map).wf(),
        match command_of(words_of(line@)) {
            Some((name, department)) => added && final(employees_map)@ == with_employee(
                old(employees_map)@,
                department,
                name,
            ),
            None => !added && final(employees_map)@ == old(employees_map)@,
        },
{
    match parse_add_command(line) {
        None => false,
        Some((employee, department)) => {
            add_employee_to_map(&employee, &department, employees_map);
            true
        },
    }
}

/// Puts every department's employees in the order of their names, then
/// gives what `choice` selects, trimmed: every department for `All` or
/// `all`, else the department of that name, or nothing if none is called
/// so.
pub fn display_employees(employees_map: &mut Roster, choice: &str) -> (shown: Option<
    Vec<Listing>,
>)
    requires
        old(employees_map).wf(),
    ensures
        final(employees_map).wf(),
        is_sorted_form(final(employees_map)@, old(employees_map)@),
        match selection_of(final(employees_map)@, trimmed(choice@)) {
            Some(entries) => shown matches Some(listings) && listing_views(listings@) == entries,
            None => shown is None,
        },
{
    proof {
        reveal_strlit("All");
        reveal_strlit("all");
        assert("All"@ == seq!['A', 'l', 'l']);
        assert("all"@ == seq!['a', 'l', 'l']);
    }
    employees_map.sort_employees();
    let dep_to_lookup = trim(choice);
    if same_text(dep_to_lookup, "All") || same_text(dep_to_lookup, "all") {
        let mut listings: Vec<Listing> = Vec::new();
        let mut i: usize = 0;
        while i < employees_map.entries.len()
            invariant
                i <= employees_map.entries.len(),
                listing_views(listings@) == employees_map@.take(i as int),
            decreases employees_map.entries.len() - i,
        {
            let ghost before = listings@;
            let listing = employees_map.listing(i);
            listings.push(listing);
            proof {
                assert(listing_views(listings@) == listing_views(before).push(
                    employees_map@[i as int],
                ));
                assert(employees_map@.take(i as int + 1) == employees_map@.take(i as int).push(
                    employees_map@[i as int],
                ));
            }
            i += 1;
        }
        proof {
            assert(employees_map@.take(employees_map@.len() as int) == employees_map@);
        }
        return Some(listings);
    }
    let at = employees_map.position(dep_to_lookup);
    if at < employees_map.entries.len() {
        let mut listings: Vec<Listing> = Vec::new();
        let listing = employees_map.listing(at);
        listings.push(listing);
        proof {
            assert(listing_views(listings@) == seq![employees_map@[at as int]]);
        }
        Some(listings)
    } else {
        None
    }
}

/// What a line typed at the menu asks for: `1` adds an employee, `2` shows
/// employees, `q` quits; whitespace around it does not count.
pub fn menu_choice(user_input: &str) -> (choice: MenuChoice)
    ensures
        choice == choice_of(trimmed(user_input@)),
{
    proof {
        reveal_strlit("1");
        reveal_strlit("2");
        reveal_strlit("q");
        assert("1"@ == seq!['1']);
        assert("2"@ == seq!['2']);
        assert("q"@ == seq!['q']);
    }
    let typed = trim(user_input);
    if same_text(typed, "1") {
        MenuChoice::AddEmployee
    } else if same_text(typed, "2") {
        MenuChoice::DisplayEmployees
    } else if same_text(typed, "q") {
        MenuChoice::Quit
    } else {
        MenuChoice::Invalid
    }
}

} // verus!
