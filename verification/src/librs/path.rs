//! Paths as byte strings: splitting into components and the questions a
//! shell asks of them.

use vstd::prelude::*;

verus! {

/// The path separator byte, `/`.
pub const SEPARATOR: u8 = 47;

/// The bytes a component stands for in the path it was split from.
pub open spec fn spec_component_bytes(c: PathComponent) -> Seq<u8> {
    match c {
        PathComponent::Separator => seq![SEPARATOR],
        PathComponent::CurrentDir => seq![46u8],
        PathComponent::ParentDir => seq![46u8, 46u8],
        PathComponent::Normal(name) => name@,
    }
}

/// The concatenation of a component list's bytes.
pub open spec fn spec_concat(cs: Seq<PathComponent>) -> Seq<u8>
    decreases cs.len(),
{
    if cs.len() == 0 {
        Seq::empty()
    } else {
        spec_concat(cs.drop_last()) + spec_component_bytes(cs.last())
    }
}

/// How many separator bytes a byte string holds.
pub open spec fn spec_separator_count(s: Seq<u8>) -> int
    decreases s.len(),
{
    if s.len() == 0 {
        0
    } else {
        spec_separator_count(s.drop_last()) + if s.last() == SEPARATOR {
            1int
        } else {
            0int
        }
    }
}

/// One component of a path.
#[derive(Clone, PartialEq, Eq, Debug)]
pub enum PathComponent {
    /// A `/`.
    Separator,
    /// A `.`.
    CurrentDir,
    /// A `..`.
    ParentDir,
    /// A name, holding no separator.
    Normal(Vec<u8>),
}

impl PathComponent {
    /// Split the first component off a byte string: `..` and `.` and `/`
    /// are themselves; anything else runs to the next separator or the
    /// end.  Returns how many bytes were consumed, and nothing for an
    /// empty string.
    pub fn parse(buf: &[u8]) -> (r: Option<(usize, PathComponent)>)
        ensures
            buf@.len() == 0 <==> r is None,
            r matches Some(p) ==> 1 <= p.0 <= buf@.len(),
            buf@.len() >= 2 && buf@[0] == 46 && buf@[1] == 46 ==> r == Some(
                (2usize, PathComponent::ParentDir),
            ),
            buf@.len() >= 1 && buf@[0] == SEPARATOR ==> r == Some(
                (1usize, PathComponent::Separator),
            ),
            buf@.len() >= 1 && buf@[0] == 46 && !(buf@.len() >= 2 && buf@[1] == 46) ==> r == Some(
                (1usize, PathComponent::CurrentDir),
            ),
            r matches Some(p) ==> (p.1 matches PathComponent::Normal(name) ==> name@
                == buf@.take(p.0 as int) && (forall|j: int|
                0 <= j < p.0 ==> buf@[j] != SEPARATOR) && (p.0 == buf@.len() || buf@[p.0 as int]
                == SEPARATOR)),
            r matches Some(p) ==> spec_component_bytes(p.1) == buf@.take(p.0 as int),
    {
        if buf.len() == 0 {
            return None;
        }
        if buf.len() >= 2 && buf[0] == 46 && buf[1] == 46 {
            return Some((2, PathComponent::ParentDir));
        }
        if buf[0] == SEPARATOR {
            return Some((1, PathComponent::Separator));
        }
        if buf[0] == 46 {
            return Some((1, PathComponent::CurrentDir));
        }
        let mut end: usize = 0;
        let mut name: Vec<u8> = Vec::new();
        while end < buf.len() && buf[end] != SEPARATOR
            invariant
                end <= buf@.len(),
                name@ == buf@.take(end as int),
                forall|j: int| 0 <= j < end ==> buf@[j] != SEPARATOR,
            decreases buf@.len() - end,
        {
            let b = buf[end];
            name.push(b);
            proof {
                assert(name@ =~= buf@.take(end + 1));
            }
            end = end + 1;
        }
        Some((end, PathComponent::Normal(name)))
    }

    /// The component's own bytes.
    pub fn as_bytes(&self) -> (r: Vec<u8>)
        ensures
            *self is Separator ==> r@ == seq![SEPARATOR],
            *self is CurrentDir ==> r@ == seq![46u8],
            *self is ParentDir ==> r@ == seq![46u8, 46u8],
            self matches PathComponent::Normal(name) ==> r@ == name@,
    {
        match self {
            PathComponent::Separator => {
                let mut v: Vec<u8> = Vec::new();
                v.push(SEPARATOR);
                proof {
                    assert(v@ =~= seq![SEPARATOR]);
                }
                v
            },
            PathComponent::CurrentDir => {
                let mut v: Vec<u8> = Vec::new();
                v.push(46);
                proof {
                    assert(v@ =~= seq![46u8]);
                }
                v
            },
            PathComponent::ParentDir => {
                let mut v: Vec<u8> = Vec::new();
                v.push(46);
                v.push(46);
                proof {
                    assert(v@ =~= seq![46u8, 46u8]);
                }
                v
            },
            PathComponent::Normal(name) => {
                let mut v: Vec<u8> = Vec::new();
                let mut i: usize = 0;
                while i < name.len()
                    invariant
                        i <= name@.len(),
                        v@ == name@.take(i as int),
                    decreases name@.len() - i,
                {
                    let b = name[i];
                    v.push(b);
                    proof {
                        assert(v@ =~= name@.take(i + 1));
                    }
                    i = i + 1;
                }
                proof {
                    assert(name@.take(name@.len() as int) =~= name@);
                }
                v
            },
        }
    }
}

/// A path: a byte string read component by component.
#[derive(Clone, PartialEq, Eq, Debug)]
pub struct Path {
    pub inner: Vec<u8>,
}

impl Path {
    /// A path over the given bytes.
    pub fn new(bytes: Vec<u8>) -> (r: Path)
        ensures
            r.inner@ == bytes@,
    {
        Path { inner: bytes }
    }

    /// The path's bytes.
    pub fn as_bytes(&self) -> (r: &Vec<u8>)
        ensures
            r@ == self.inner@,
    {
        &self.inner
    }

    /// The path split into its components, in order: their bytes, joined
    /// back together, are exactly the path.
    pub fn components(&self) -> (r: Vec<PathComponent>)
        ensures
            spec_concat(r@) == self.inner@,
    {
        let buf = &self.inner;
        let n = buf.len();
        let mut start: usize = 0;
        let mut out: Vec<PathComponent> = Vec::new();
        proof {
            assert(self.inner@.take(0) =~= Seq::<u8>::empty());
        }
        while start < n
            invariant
                start <= n,
                n == buf@.len(),
                buf@ == self.inner@,
                spec_concat(out@) == self.inner@.take(start as int),
            decreases n - start,
        {
            let rest = vstd::slice::slice_subrange(buf.as_slice(), start, n);
            match PathComponent::parse(rest) {
                Some((consumed, component)) => {
                    let ghost before = out@;
                    let ghost piece = spec_component_bytes(component);
                    out.push(component);
                    proof {
                        assert(out@.drop_last() =~= before);
                        assert(piece == rest@.take(consumed as int));
                        assert(rest@.take(consumed as int) =~= self.inner@.subrange(
                            start as int,
                            start as int + consumed,
                        ));
                        assert(spec_concat(out@) == self.inner@.take(start as int)
                            + self.inner@.subrange(start as int, start as int + consumed));
                        assert(self.inner@.take(start as int) + self.inner@.subrange(
                            start as int,
                            start as int + consumed,
                        ) =~= self.inner@.take(start as int + consumed));
                    }
                    start = start + consumed;
                },
                None => {
                    proof {
                        assert(false);
                    }
                },
            }
        }
        proof {
            assert(self.inner@.take(n as int) =~= self.inner@);
        }
        out
    }

    /// Whether the path starts at the root.
    pub fn is_absolute(&self) -> (r: bool)
        ensures
            r == (self.inner@.len() >= 1 && self.inner@[0] == SEPARATOR),
    {
        self.inner.len() >= 1 && self.inner[0] == SEPARATOR
    }

    /// Whether the path is relative to the current directory.
    pub fn is_relative(&self) -> (r: bool)
        ensures
            r == !(self.inner@.len() >= 1 && self.inner@[0] == SEPARATOR),
    {
        !self.is_absolute()
    }

    /// Whether the path names a directory: it ends in a separator or a dot
    /// component.
    pub fn is_directory(&self) -> (r: bool)
        ensures
            self.inner@.len() == 0 ==> r == false,
    {
        let components = self.components();
        if components.len() == 0 {
            return false;
        }
        match &components[components.len() - 1] {
            PathComponent::Separator => true,
            PathComponent::CurrentDir => true,
            PathComponent::ParentDir => true,
            PathComponent::Normal(_) => false,
        }
    }

    /// Whether the path names a file: not a directory.
    pub fn is_file(&self) -> (r: bool)
        ensures
            self.inner@.len() == 0 ==> r == true,
    {
        !self.is_directory()
    }

    /// How many separators the path holds: how deep it reaches.
    pub fn depth(&self) -> (r: usize)
        ensures
            r == spec_separator_count(self.inner@),
            r <= self.inner@.len(),
    {
        let n = self.inner.len();
        let mut count: usize = 0;
        let mut i: usize = 0;
        proof {
            assert(self.inner@.take(0) =~= Seq::<u8>::empty());
        }
        while i < n
            invariant
                i <= n,
                n == self.inner@.len(),
                count <= i,
                count as int == spec_separator_count(self.inner@.take(i as int)),
            decreases n - i,
        {
            proof {
                assert(self.inner@.take(i + 1).drop_last() =~= self.inner@.take(i as int));
                assert(self.inner@.take(i + 1).last() == self.inner@[i as int]);
            }
            if self.inner[i] == SEPARATOR {
                count = count + 1;
            }
            i = i + 1;
        }
        proof {
            assert(self.inner@.take(n as int) =~= self.inner@);
        }
        count
    }
}

} // verus!
