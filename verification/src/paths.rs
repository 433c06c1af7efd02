//! Locations inside schemas and instances, written as JSON pointers.

use crate::views::views_of;
use vstd::prelude::*;
use vstd::string::*;

verus! {

/// One step of a location, as contracts see it.
pub enum PathSegment {
    /// A member of an object, by its key.
    Property(Seq<char>),
    /// An element of an array, by its position.
    Index(nat),
    /// A keyword of a schema.
    Keyword(Seq<char>),
}

/// One step of a location.
#[derive(Debug)]
pub enum PathChunk {
    /// A member of an object, by its key.
    Property(String),
    /// An element of an array, by its position.
    Index(usize),
    /// A keyword of a schema.
    Keyword(&'static str),
}

impl View for PathChunk {
    type V = PathSegment;

    open spec fn view(&self) -> PathSegment {
        match self {
            PathChunk::Property(name) => PathSegment::Property(name@),
            PathChunk::Index(position) => PathSegment::Index(*position as nat),
            PathChunk::Keyword(name) => PathSegment::Keyword(name@),
        }
    }
}

impl Clone for PathChunk {
    fn clone(&self) -> (copy: Self)
        ensures
            copy@ == self@,
    {
        match self {
            PathChunk::Property(name) => PathChunk::Property(name.clone()),
            PathChunk::Index(position) => PathChunk::Index(*position),
            PathChunk::Keyword(name) => PathChunk::Keyword(*name),
        }
    }
}

/// The character that writes the digit `d`.
pub open spec fn digit_char(d: nat) -> char {
    if d == 0 {
        '0'
    } else if d == 1 {
        '1'
    } else if d == 2 {
        '2'
    } else if d == 3 {
        '3'
    } else if d == 4 {
        '4'
    } else if d == 5 {
        '5'
    } else if d == 6 {
        '6'
    } else if d == 7 {
        '7'
    } else if d == 8 {
        '8'
    } else {
        '9'
    }
}

/// The decimal numeral of `n`, without leading zeros.
pub open spec fn decimal_text(n: nat) -> Seq<char>
    decreases n,
{
    if n < 10 {
        seq![digit_char(n)]
    } else {
        decimal_text(n / 10).push(digit_char(n % 10))
    }
}

/// The text of one step of a pointer.
pub open spec fn segment_text(segment: PathSegment) -> Seq<char> {
    match segment {
        PathSegment::Property(name) => name,
        PathSegment::Index(position) => decimal_text(position),
        PathSegment::Keyword(name) => name,
    }
}

/// The text of a pointer: each step behind a slash, the empty text for the
/// root.
pub open spec fn pointer_text(segments: Seq<PathSegment>) -> Seq<char>
    decreases segments.len(),
{
    if segments.len() == 0 {
        Seq::<char>::empty()
    } else {
        pointer_text(segments.drop_last()) + seq!['/'] + segment_text(segments.last())
    }
}

fn digit_str(d: u64) -> (text: &'static str)
    requires
        d < 10,
    ensures
        text@ == seq![digit_char(d as nat)],
{
    proof {
        reveal_strlit("0");
        reveal_strlit("1");
        reveal_strlit("2");
        reveal_strlit("3");
        reveal_strlit("4");
        reveal_strlit("5");
        reveal_strlit("6");
        reveal_strlit("7");
        reveal_strlit("8");
        reveal_strlit("9");
    }
    if d == 0 {
        "0"
    } else if d == 1 {
        "1"
    } else if d == 2 {
        "2"
    } else if d == 3 {
        "3"
    } else if d == 4 {
        "4"
    } else if d == 5 {
        "5"
    } else if d == 6 {
        "6"
    } else if d == 7 {
        "7"
    } else if d == 8 {
        "8"
    } else {
        "9"
    }
}

/// Writes `n` in decimal.
pub fn decimal(n: u64) -> (text: String)
    ensures
        text@ == decimal_text(n as nat),
    decreases n,
{
    if n < 10 {
        String::from_str(digit_str(n))
    } else {
        let mut text = decimal(n / 10);
        text.append(digit_str(n % 10));
        text
    }
}

/// A location inside a document: the steps from its root.
#[derive(Debug)]
pub struct JsonPointer(pub Vec<PathChunk>);

impl View for JsonPointer {
    type V = Seq<PathSegment>;

    open spec fn view(&self) -> Seq<PathSegment> {
        views_of(self.0@)
    }
}

impl Clone for JsonPointer {
    fn clone(&self) -> (copy: Self)
        ensures
            copy@ == self@,
    {
        let mut chunks: Vec<PathChunk> = Vec::new();
        let mut i: usize = 0;
        while i < self.0.len()
            invariant
                i <= self.0@.len(),
                chunks@.len() == i,
                forall|j: int| 0 <= j < i ==> chunks@[j]@ == self.0@[j]@,
            decreases self.0@.len() - i,
        {
            chunks.push(self.0[i].clone());
            i += 1;
        }
        JsonPointer(chunks)
    }
}

impl Default for JsonPointer {
    fn default() -> (root: Self)
        ensures
            root@ == Seq::<PathSegment>::empty(),
    {
        JsonPointer(Vec::new())
    }
}

impl JsonPointer {
    /// The number of steps.
    pub fn len(&self) -> (n: usize)
        ensures
            n == self@.len(),
    {
        self.0.len()
    }

    /// A copy of this pointer with one more step at its end.
    pub fn clone_with(&self, chunk: PathChunk) -> (longer: Self)
        ensures
            longer@ == self@.push(chunk@),
    {
        let mut longer = self.clone();
        longer.0.push(chunk);
        longer
    }

    /// The pointer as text: each step behind a slash.
    pub fn render(&self) -> (text: String)
        ensures
            text@ == pointer_text(self@),
    {
        let mut text = String::new();
        let mut i: usize = 0;
        while i < self.0.len()
            invariant
                i <= self.0@.len(),
                text@ == pointer_text(self@.take(i as int)),
            decreases self.0@.len() - i,
        {
            text.append("/");
            proof {
                reveal_strlit("/");
            }
            match &self.0[i] {
                PathChunk::Property(name) => text.append(name.as_str()),
                PathChunk::Index(position) => {
                    let digits = decimal(*position as u64);
                    text.append(digits.as_str());
                },
                PathChunk::Keyword(name) => text.append(name),
            }
            assert(self@.take(i + 1).drop_last() =~= self@.take(i as int));
            i += 1;
        }
        assert(self@.take(i as int) =~= self@);
        text
    }
}

} // verus!
