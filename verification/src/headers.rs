use vstd::prelude::*;
use vstd::utf8::encode_utf8;

verus! {

/// One header line: a name and the value set for it.
#[derive(Debug)]
pub struct Header {
    pub name: String,
    pub value: String,
}

impl View for Header {
    type V = (Seq<char>, Seq<char>);

    open spec fn view(&self) -> (Seq<char>, Seq<char>) {
        (self.name@, self.value@)
    }
}

/// The header lines of a request or a response, in the order in which their
/// names were first set. A name is found whatever the case of its letters.
#[derive(Debug)]
pub struct Headers {
    pub entries: Vec<Header>,
}

impl View for Headers {
    type V = Seq<(Seq<char>, Seq<char>)>;

    open spec fn view(&self) -> Seq<(Seq<char>, Seq<char>)> {
        Seq::new(self.entries@.len(), |i: int| self.entries@[i]@)
    }
}

/// A byte with a capital letter of ASCII made small.
pub open spec fn small(b: u8) -> u8 {
    if 65 <= b <= 90 {
        (b + 32) as u8
    } else {
        b
    }
}

/// The bytes of a name in UTF-8, with the capital letters of ASCII made
/// small.
pub open spec fn folded(name: Seq<char>) -> Seq<u8> {
    encode_utf8(name).map_values(|b: u8| small(b))
}

/// Two names are the same header name: they differ at most in the case of
/// their ASCII letters.
pub open spec fn same_name(a: Seq<char>, b: Seq<char>) -> bool {
    folded(a) == folded(b)
}

/// `i` is where `name` first stands in `lines`, or the length of `lines`
/// where it stands nowhere.
pub open spec fn first_at(lines: Seq<(Seq<char>, Seq<char>)>, name: Seq<char>, i: int) -> bool {
    &&& 0 <= i <= lines.len()
    &&& forall|k: int| 0 <= k < i ==> !same_name((#[trigger] lines[k]).0, name)
    &&& i < lines.len() ==> same_name(lines[i].0, name)
}

/// The place that `first_at` describes.
pub open spec fn first_index(lines: Seq<(Seq<char>, Seq<char>)>, name: Seq<char>) -> int {
    choose|i: int| first_at(lines, name, i)
}

/// `lines` after `name` was set to `value`: the first line of that name is
/// replaced where there is one, and takes the name as it is written now,
/// else a line is added at the end.
pub open spec fn with_line(
    lines: Seq<(Seq<char>, Seq<char>)>,
    name: Seq<char>,
    value: Seq<char>,
) -> Seq<(Seq<char>, Seq<char>)> {
    let i = first_index(lines, name);
    if i < lines.len() {
        lines.update(i, (name, value))
    } else {
        lines.push((name, value))
    }
}

/// The value that `lines` holds for `name`.
pub open spec fn value_of(lines: Seq<(Seq<char>, Seq<char>)>, name: Seq<char>) -> Option<Seq<char>> {
    let i = first_index(lines, name);
    if i < lines.len() {
        Some(lines[i].1)
    } else {
        None
    }
}

/// At most one place is the first one.
pub proof fn lemma_first_at_unique(lines: Seq<(Seq<char>, Seq<char>)>, name: Seq<char>, i: int, j: int)
    requires
        first_at(lines, name, i),
        first_at(lines, name, j),
    ensures
        i == j,
{
    if i < j {
        assert(!same_name(lines[i].0, name));
    }
    if j < i {
        assert(!same_name(lines[j].0, name));
    }
}

/// A place that meets `first_at` is the one that `first_index` names.
pub proof fn lemma_first_index_is(lines: Seq<(Seq<char>, Seq<char>)>, name: Seq<char>, i: int)
    requires
        first_at(lines, name, i),
    ensures
        first_index(lines, name) == i,
{
    lemma_first_at_unique(lines, name, i, first_index(lines, name));
}

fn to_small(b: u8) -> (r: u8)
    ensures
        r == small(b),
{
    if 65 <= b && b <= 90 {
        b + 32
    } else {
        b
    }
}

/// Whether two names are the same header name.
pub fn names_match(a: &str, b: &str) -> (r: bool)
    ensures
        r == same_name(a@, b@),
{
    let x = a.as_bytes();
    let y = b.as_bytes();
    if x.len() != y.len() {
        assert(folded(a@).len() != folded(b@).len());
        return false;
    }
    let mut i: usize = 0;
    while i < x.len()
        invariant
            i <= x.len(),
            x.len() == y.len(),
            x@ == encode_utf8(a@),
            y@ == encode_utf8(b@),
            forall|k: int| 0 <= k < i ==> small(x@[k]) == small(y@[k]),
        decreases x.len() - i,
    {
        if to_small(x[i]) != to_small(y[i]) {
            assert(folded(a@)[i as int] != folded(b@)[i as int]);
            return false;
        }
        i += 1;
    }
    assert(folded(a@) =~= folded(b@));
    true
}

impl Headers {
    pub fn new() -> (h: Headers)
        ensures
            h@ == Seq::<(Seq<char>, Seq<char>)>::empty(),
    {
        let h = Headers { entries: Vec::new() };
        assert(h@ =~= Seq::<(Seq<char>, Seq<char>)>::empty());
        h
    }

    pub fn len(&self) -> (n: usize)
        ensures
            n == self@.len(),
    {
        self.entries.len()
    }

    /// Where `name` first stands, or the number of lines.
    fn find(&self, name: &str) -> (i: usize)
        ensures
            first_at(self@, name@, i as int),
            i as int == first_index(self@, name@),
    {
        let mut i: usize = 0;
        let mut found = false;
        while i < self.entries.len() && !found
            invariant
                i <= self.entries.len(),
                forall|k: int| 0 <= k < i ==> !same_name((#[trigger] self@[k]).0, name@),
                found ==> i < self.entries.len() && same_name(self@[i as int].0, name@),
            decreases self.entries.len() - i + (if found { 0int } else { 1int }),
        {
            if names_match(self.entries[i].name.as_str(), name) {
                found = true;
            } else {
                i += 1;
            }
        }
        proof {
            lemma_first_index_is(self@, name@, i as int);
        }
        i
    }

    /// The value set for `name`, if one was set.
    pub fn get(&self, name: &str) -> (v: Option<&String>)
        ensures
            match v {
                Some(s) => value_of(self@, name@) == Some(s@),
                None => value_of(self@, name@).is_none(),
            },
    {
        let i = self.find(name);
        if i < self.entries.len() {
            Some(&self.entries[i].value)
        } else {
            None
        }
    }

    /// Sets `name` to `value`, in place of the value it had where it had one.
    /// What was set is what is read back, and every other name keeps the
    /// value it had.
    pub fn set(&mut self, name: String, value: String)
        ensures
            final(self)@ == with_line(old(self)@, name@, value@),
            value_of(final(self)@, name@) == Some(value@),
            forall|other: Seq<char>|
                !same_name(other, name@) ==> #[trigger] value_of(final(self)@, other) == value_of(
                    old(self)@,
                    other,
                ),
    {
        let i = self.find(name.as_str());
        let ghost before = self@;
        let ghost line = (name@, value@);
        proof {
            lemma_set_then_get(before, name@, value@);
            assert forall|other: Seq<char>| !same_name(other, name@) implies #[trigger] value_of(
                with_line(before, name@, value@),
                other,
            ) == value_of(before, other) by {
                lemma_set_keeps_others(before, name@, value@, other);
            }
        }
        if i < self.entries.len() {
            self.entries[i] = Header { name, value };
            assert(self@ =~= before.update(i as int, line));
        } else {
            self.entries.push(Header { name, value });
            assert(self@ =~= before.push(line));
        }
    }
}

/// Every list of lines has a first place for every name: the search from
/// `i` on finds it, where no line before `i` has the name.
pub proof fn lemma_first_from(lines: Seq<(Seq<char>, Seq<char>)>, name: Seq<char>, i: int) -> (k: int)
    requires
        0 <= i <= lines.len(),
        forall|j: int| 0 <= j < i ==> !same_name((#[trigger] lines[j]).0, name),
    ensures
        first_at(lines, name, k),
        first_index(lines, name) == k,
    decreases lines.len() - i,
{
    let k = if i == lines.len() || same_name(lines[i].0, name) {
        i
    } else {
        lemma_first_from(lines, name, i + 1)
    };
    lemma_first_index_is(lines, name, k);
    k
}

/// What was set is what is read back.
pub proof fn lemma_set_then_get(lines: Seq<(Seq<char>, Seq<char>)>, name: Seq<char>, value: Seq<char>)
    ensures
        value_of(with_line(lines, name, value), name) == Some(value),
{
    let i = lemma_first_from(lines, name, 0);
    let after = with_line(lines, name, value);
    assert(first_at(after, name, i));
    lemma_first_index_is(after, name, i);
}

/// Setting one name leaves the value of every other name as it was.
pub proof fn lemma_set_keeps_others(
    lines: Seq<(Seq<char>, Seq<char>)>,
    name: Seq<char>,
    value: Seq<char>,
    other: Seq<char>,
)
    requires
        !same_name(other, name),
    ensures
        value_of(with_line(lines, name, value), other) == value_of(lines, other),
{
    let i = lemma_first_from(lines, name, 0);
    let j = lemma_first_from(lines, other, 0);
    let after = with_line(lines, name, value);
    assert(first_at(after, other, if j < lines.len() { j } else { after.len() as int })) by {
        assert forall|k: int| 0 <= k < lines.len() && k != i implies after[k] == lines[k] by {}
    }
    lemma_first_index_is(after, other, if j < lines.len() { j } else { after.len() as int });
}

} // verus!
