//! The header table of a request or response: an insertion-ordered list of
//! name/value pairs read as a map in which a later pair overrides an earlier
//! one with the same name.

use vstd::prelude::*;
use vstd::string::*;

verus! {

/// A header line, as text.
pub type HeaderLine = (Seq<char>, Seq<char>);

/// The map that a list of header lines denotes: each name maps to the value
/// of its last line.
pub open spec fn header_table(lines: Seq<HeaderLine>) -> Map<Seq<char>, Seq<char>>
    decreases lines.len(),
{
    if lines.len() == 0 {
        Map::empty()
    } else {
        header_table(lines.drop_last()).insert(lines.last().0, lines.last().1)
    }
}

/// No name occurs on two lines.
pub open spec fn names_distinct<V>(lines: Seq<(Seq<char>, V)>) -> bool {
    forall|i: int, j: int| 0 <= i < j < lines.len() ==> lines[i].0 != lines[j].0
}

/// `i` is the last line named `name`.
pub open spec fn last_line_named(lines: Seq<HeaderLine>, name: Seq<char>, i: int) -> bool {
    &&& 0 <= i < lines.len()
    &&& lines[i].0 == name
    &&& forall|j: int| i < j < lines.len() ==> lines[j].0 != name
}

/// The index of the last line named `name`, if any.
pub open spec fn last_position(lines: Seq<HeaderLine>, name: Seq<char>) -> Option<int>
    decreases lines.len(),
{
    if lines.len() == 0 {
        None
    } else if lines.last().0 == name {
        Some(lines.len() - 1)
    } else {
        last_position(lines.drop_last(), name)
    }
}

/// The lines after setting `name` to `value`: the last line with that name
/// takes the value in place, or a line is appended when none has the name.
pub open spec fn with_line(lines: Seq<HeaderLine>, name: Seq<char>, value: Seq<char>) -> Seq<
    HeaderLine,
> {
    match last_position(lines, name) {
        Some(i) => lines.update(i, (name, value)),
        None => lines.push((name, value)),
    }
}

/// `last_position` finds exactly the last line of a name.
pub proof fn lemma_last_position(lines: Seq<HeaderLine>, name: Seq<char>)
    ensures
        last_position(lines, name) matches Some(i) ==> last_line_named(lines, name, i),
        last_position(lines, name) is None ==> forall|j: int|
            0 <= j < lines.len() ==> lines[j].0 != name,
    decreases lines.len(),
{
    if lines.len() > 0 && lines.last().0 != name {
        lemma_last_position(lines.drop_last(), name);
        assert(forall|j: int| 0 <= j < lines.len() - 1 ==> lines[j] == lines.drop_last()[j]);
    }
}

/// The table holds a name iff some line carries it, and then its value is the
/// value of the last such line.
pub proof fn lemma_table_lookup(lines: Seq<HeaderLine>, name: Seq<char>)
    ensures
        (forall|j: int| 0 <= j < lines.len() ==> lines[j].0 != name) ==> !header_table(
            lines,
        ).contains_key(name),
        forall|i: int|
            last_line_named(lines, name, i) ==> header_table(lines).contains_key(name)
                && #[trigger] header_table(lines)[name] == lines[i].1,
    decreases lines.len(),
{
    if lines.len() > 0 {
        let init = lines.drop_last();
        lemma_table_lookup(init, name);
        assert forall|i: int| last_line_named(lines, name, i) implies header_table(
            lines,
        ).contains_key(name) && #[trigger] header_table(lines)[name] == lines[i].1 by {
            if i < lines.len() - 1 {
                assert(last_line_named(init, name, i));
            }
        }
        if forall|j: int| 0 <= j < lines.len() ==> lines[j].0 != name {
            assert forall|j: int| 0 <= j < init.len() implies init[j].0 != name by {
                assert(lines[j].0 != name);
            }
        }
    }
}

/// Rewriting the value on the last line of a name updates the table at that
/// name and nowhere else.
pub proof fn lemma_table_rewrite(lines: Seq<HeaderLine>, i: int, value: Seq<char>)
    requires
        last_line_named(lines, lines[i].0, i),
    ensures
        header_table(lines.update(i, (lines[i].0, value))) =~= header_table(lines).insert(
            lines[i].0,
            value,
        ),
    decreases lines.len(),
{
    let name = lines[i].0;
    let after = lines.update(i, (name, value));
    if i == lines.len() - 1 {
        assert(after.drop_last() =~= lines.drop_last());
    } else {
        let init = lines.drop_last();
        assert(last_line_named(init, name, i));
        lemma_table_rewrite(init, i, value);
        assert(after.drop_last() =~= init.update(i, (name, value)));
        assert(lines.last().0 != name);
    }
}

/// Setting a line updates the table at that name and nowhere else, keeps
/// names distinct, and leaves the name's line as its last one.
pub proof fn lemma_with_line(lines: Seq<HeaderLine>, name: Seq<char>, value: Seq<char>)
    ensures
        header_table(with_line(lines, name, value)) =~= header_table(lines).insert(name, value),
        names_distinct(lines) ==> names_distinct(with_line(lines, name, value)),
        last_position(with_line(lines, name, value), name) == Some(match last_position(lines, name) {
            Some(i) => i,
            None => lines.len() as int,
        }),
        with_line(lines, name, value).len() == (if last_position(lines, name) is Some {
            lines.len() as int
        } else {
            lines.len() + 1int
        }),
{
    lemma_last_position(lines, name);
    let after = with_line(lines, name, value);
    match last_position(lines, name) {
        Some(i) => {
            assert(lines[i].0 == name);
            lemma_table_rewrite(lines, i, value);
            assert(lines.update(i, (lines[i].0, value)) == after);
            lemma_last_position(after, name);
            assert(last_line_named(after, name, i));
            lemma_last_position_unique(after, name, i);
            if names_distinct(lines) {
                assert forall|a: int, b: int| 0 <= a < b < after.len() implies after[a].0
                    != after[b].0 by {
                    assert(after[a].0 == lines[a].0 && after[b].0 == lines[b].0);
                }
            }
        },
        None => {
            assert(after.drop_last() =~= lines);
            if names_distinct(lines) {
                lemma_push_distinct(lines, (name, value));
            }
        },
    }
}

/// The last line of a name is unique.
proof fn lemma_last_position_unique(lines: Seq<HeaderLine>, name: Seq<char>, i: int)
    requires
        last_line_named(lines, name, i),
    ensures
        last_position(lines, name) == Some(i),
{
    lemma_last_position(lines, name);
    match last_position(lines, name) {
        Some(k) => {
            if k < i {
                assert(lines[i].0 != name);
            } else if k > i {
                assert(lines[k].0 != name);
            }
        },
        None => {
            assert(lines[i].0 != name);
        },
    }
}

/// Setting a name twice leaves the lines as setting it once to the second
/// value: the last write wins and earlier writes leave no trace.
pub proof fn law_set_twice(lines: Seq<HeaderLine>, name: Seq<char>, first: Seq<char>, second: Seq<
    char,
>)
    ensures
        with_line(with_line(lines, name, first), name, second) == with_line(lines, name, second),
{
    lemma_with_line(lines, name, first);
    lemma_last_position(lines, name);
    match last_position(lines, name) {
        Some(i) => {
            assert(with_line(with_line(lines, name, first), name, second) =~= lines.update(
                i,
                (name, second),
            ));
        },
        None => {
            assert(with_line(with_line(lines, name, first), name, second) =~= lines.push(
                (name, second),
            ));
        },
    }
}

/// Reading a header back after setting it gives the value set, and every
/// other header keeps its value.
pub proof fn law_read_after_write(lines: Seq<HeaderLine>, name: Seq<char>, value: Seq<char>)
    ensures
        header_table(with_line(lines, name, value)).contains_key(name),
        header_table(with_line(lines, name, value))[name] == value,
        forall|other: Seq<char>|
            other != name ==> (#[trigger] header_table(with_line(lines, name, value)).contains_key(
                other,
            ) == header_table(lines).contains_key(other) && header_table(
                with_line(lines, name, value),
            )[other] == header_table(lines)[other]),
{
    lemma_with_line(lines, name, value);
}

/// Appending a line with a new name keeps the names distinct.
proof fn lemma_push_distinct(lines: Seq<HeaderLine>, line: HeaderLine)
    requires
        names_distinct(lines),
        forall|j: int| 0 <= j < lines.len() ==> lines[j].0 != line.0,
    ensures
        names_distinct(lines.push(line)),
{
    let after = lines.push(line);
    assert forall|a: int, b: int| 0 <= a < b < after.len() implies after[a].0 != after[b].0 by {
        if b == lines.len() {
            assert(lines[a].0 != line.0);
        } else {
            assert(after[a] == lines[a] && after[b] == lines[b]);
        }
    }
}

/// The text view of a stored header line.
pub open spec fn line_view(p: (String, String)) -> HeaderLine {
    (p.0@, p.1@)
}

/// A header table.
#[derive(Debug)]
pub struct Headers {
    lines: Vec<(String, String)>,
}

impl View for Headers {
    type V = Seq<HeaderLine>;

    closed spec fn view(&self) -> Seq<HeaderLine> {
        self.lines@.map_values(|p: (String, String)| line_view(p))
    }
}

impl Headers {
    /// No name occurs on two lines.
    #[verifier::type_invariant]
    spec fn names_unique(self) -> bool {
        names_distinct(self.lines@.map_values(|p: (String, String)| line_view(p)))
    }

    /// The map that the table denotes.
    pub open spec fn table(&self) -> Map<Seq<char>, Seq<char>> {
        header_table(self@)
    }

    /// An empty table.
    pub fn new() -> (h: Headers)
        ensures
            h@ == Seq::<HeaderLine>::empty(),
            h.table() == Map::<Seq<char>, Seq<char>>::empty(),
            names_distinct(h@),
    {
        let h = Headers { lines: Vec::new() };
        assert(h@ =~= Seq::<HeaderLine>::empty());
        h
    }

    /// The number of lines.
    pub fn len(&self) -> (n: usize)
        ensures
            n == self@.len(),
    {
        self.lines.len()
    }

    /// The lines, in order.
    pub fn lines(&self) -> (lines: &Vec<(String, String)>)
        ensures
            lines@.map_values(|p: (String, String)| line_view(p)) == self@,
            names_distinct(self@),
    {
        proof {
            use_type_invariant(self);
        }
        &self.lines
    }

    /// The index of the last line named `name`, if there is one.
    fn position(&self, name: &String) -> (r: Option<usize>)
        ensures
            r matches Some(i) ==> last_line_named(self@, name@, i as int),
            r is None ==> forall|j: int| 0 <= j < self@.len() ==> self@[j].0 != name@,
    {
        let mut i = self.lines.len();
        while i > 0
            invariant
                i <= self.lines.len(),
                self@.len() == self.lines@.len(),
                forall|j: int| i <= j < self@.len() ==> self@[j].0 != name@,
            decreases i,
        {
            i = i - 1;
            if self.lines[i].0 == *name {
                return Some(i);
            }
        }
        None
    }

    /// The value the table holds for `name`.
    pub fn get(&self, name: &str) -> (r: Option<&String>)
        ensures
            r is Some == self.table().contains_key(name@),
            r matches Some(v) ==> v@ == self.table()[name@],
    {
        let key = name.to_owned();
        let found = self.position(&key);
        proof {
            lemma_table_lookup(self@, name@);
        }
        match found {
            Some(i) => Some(&self.lines[i].1),
            None => None,
        }
    }

    /// Sets `name` to `value`: the last line with that name gets the new
    /// value in place, or a new line is appended when there is none.
    pub fn insert(&mut self, name: String, value: String)
        ensures
            final(self)@ == with_line(old(self)@, name@, value@),
            final(self).table() == old(self).table().insert(name@, value@),
            names_distinct(final(self)@),
    {
        proof {
            use_type_invariant(&*self);
        }
        let ghost before = self@;
        let found = self.position(&name);
        proof {
            lemma_last_position(before, name@);
            lemma_with_line(before, name@, value@);
            match found {
                Some(i) => lemma_last_position_unique(before, name@, i as int),
                None => {},
            }
        }
        let ghost line = (name@, value@);
        let mut lines: Vec<(String, String)> = Vec::new();
        std::mem::swap(&mut lines, &mut self.lines);
        match found {
            Some(i) => {
                lines.set(i, (name, value));
                assert(lines@.map_values(|p: (String, String)| line_view(p)) =~= before.update(
                    i as int,
                    line,
                ));
            },
            None => {
                lines.push((name, value));
                assert(lines@.map_values(|p: (String, String)| line_view(p)) =~= before.push(
                    line,
                ));
            },
        }
        self.lines = lines;
    }
}

impl Clone for Headers {
    fn clone(&self) -> (h: Headers)
        ensures
            h@ == self@,
            names_distinct(h@),
    {
        proof {
            use_type_invariant(self);
        }
        let mut lines: Vec<(String, String)> = Vec::new();
        let n = self.lines.len();
        for k in 0..n
            invariant
                n == self.lines@.len(),
                lines@.len() == k,
                forall|j: int|
                    0 <= j < k ==> line_view(#[trigger] lines@[j]) == line_view(self.lines@[j]),
        {
            let name = self.lines[k].0.clone();
            let value = self.lines[k].1.clone();
            lines.push((name, value));
        }
        assert(lines@.map_values(|p: (String, String)| line_view(p)) =~= self@);
        Headers { lines }
    }
}

} // verus!
