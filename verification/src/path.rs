//! Names of broadcasts: parts that a slash keeps apart.

use vstd::prelude::*;
use vstd::utf8::encode_utf8;

verus! {

/// Whether a text is one part of a path: it is not empty and holds no slash.
pub open spec fn is_part(s: Seq<char>) -> bool {
    s.len() > 0 && !s.contains('/')
}

/// The parts that end within `s`, and the part that is still open at its end.
pub open spec fn split(s: Seq<char>) -> (Seq<Seq<char>>, Seq<char>)
    decreases s.len(),
{
    if s.len() == 0 {
        (Seq::empty(), Seq::empty())
    } else {
        let (done, open) = split(s.drop_last());
        if s.last() == '/' {
            (close(done, open), Seq::empty())
        } else {
            (done, open.push(s.last()))
        }
    }
}

/// The parts once the open one is at its end; an empty one is dropped.
pub open spec fn close(done: Seq<Seq<char>>, open: Seq<char>) -> Seq<Seq<char>> {
    if open.len() > 0 {
        done.push(open)
    } else {
        done
    }
}

/// The parts of a path: what lies between slashes, without the empty pieces.
pub open spec fn path_parts(s: Seq<char>) -> Seq<Seq<char>> {
    close(split(s).0, split(s).1)
}

/// The parts with one slash between two of them.
pub open spec fn join(parts: Seq<Seq<char>>) -> Seq<char>
    decreases parts.len(),
{
    if parts.len() == 0 {
        Seq::empty()
    } else if parts.len() == 1 {
        parts[0]
    } else {
        join(parts.drop_last()).push('/') + parts.last()
    }
}

/// A text without a slash only makes the open part longer.
proof fn lemma_split_plain(s: Seq<char>, plain: Seq<char>)
    requires
        !plain.contains('/'),
    ensures
        split(s + plain) == (split(s).0, split(s).1 + plain),
    decreases plain.len(),
{
    if plain.len() == 0 {
        assert(s + plain =~= s);
        assert(split(s).1 + plain =~= split(s).1);
    } else {
        assert forall|c: char| plain.drop_last().contains(c) implies plain.contains(c) by {
            let i = choose|i: int| 0 <= i < plain.drop_last().len() && plain.drop_last()[i] == c;
            assert(plain[i] == c);
        }
        lemma_split_plain(s, plain.drop_last());
        assert((s + plain).drop_last() =~= s + plain.drop_last());
        assert((split(s).1 + plain.drop_last()).push(plain.last()) =~= split(s).1 + plain);
        assert(plain.contains(plain.last()));
    }
}

/// A path that consists of one part has just that part.
pub proof fn lemma_one_part(s: Seq<char>)
    requires
        is_part(s),
    ensures
        path_parts(s) == seq![s],
{
    lemma_split_plain(Seq::empty(), s);
    assert(Seq::<char>::empty() + s =~= s);
    assert(split(Seq::<char>::empty()).1 + s =~= s);
}

/// Joined parts fall apart into the same parts.
pub proof fn law_join_split(parts: Seq<Seq<char>>)
    requires
        forall|i: int| 0 <= i < parts.len() ==> is_part(#[trigger] parts[i]),
    ensures
        path_parts(join(parts)) == parts,
    decreases parts.len(),
{
    if parts.len() == 1 {
        lemma_one_part(parts[0]);
        assert(parts =~= seq![parts[0]]);
    } else if parts.len() > 1 {
        let head = join(parts.drop_last());
        let slash = head.push('/');
        law_join_split(parts.drop_last());
        assert(slash.drop_last() =~= head);
        lemma_split_plain(slash, parts.last());
        assert(is_part(parts.last()));
        assert(split(slash).1 + parts.last() =~= parts.last());
        assert(parts.drop_last().push(parts.last()) =~= parts);
    } else {
        assert(path_parts(join(parts)) =~= parts);
    }
}

/// What lies between slashes holds none, and the empty pieces are gone.
pub proof fn law_parts_are_parts(s: Seq<char>)
    ensures
        forall|i: int| 0 <= i < path_parts(s).len() ==> is_part(#[trigger] path_parts(s)[i]),
        forall|i: int| 0 <= i < split(s).0.len() ==> is_part(#[trigger] split(s).0[i]),
        !split(s).1.contains('/'),
    decreases s.len(),
{
    if s.len() > 0 {
        law_parts_are_parts(s.drop_last());
        let (done, open) = split(s.drop_last());
        if s.last() != '/' {
            assert forall|c: char| open.push(s.last()).contains(c) implies c == s.last()
                || open.contains(c) by {
                let i = choose|i: int|
                    0 <= i < open.push(s.last()).len() && open.push(s.last())[i] == c;
                if i < open.len() {
                    assert(open[i] == c);
                }
            }
        }
    }
}

/// A path read anew from its text stays what it is.
pub proof fn law_path_is_normal(s: Seq<char>)
    ensures
        path_parts(join(path_parts(s))) == path_parts(s),
{
    law_parts_are_parts(s);
    law_join_split(path_parts(s));
}

/// Whether these are the parts of a path: each is one, and a message can count them and their
/// bytes.
pub open spec fn is_path(parts: Seq<Seq<char>>) -> bool {
    &&& parts.len() <= u64::MAX
    &&& forall|i: int| 0 <= i < parts.len() ==> is_part(#[trigger] parts[i])
    &&& forall|i: int|
        0 <= i < parts.len() ==> encode_utf8(#[trigger] parts[i]).len() <= u64::MAX
}

/// A path: the parts of a broadcast's name.
#[derive(Debug)]
pub struct Path {
    parts: Vec<String>,
}

/// What each of the texts says.
spec fn texts(parts: Seq<String>) -> Seq<Seq<char>> {
    parts.map_values(|p: String| p@)
}

impl View for Path {
    type V = Seq<Seq<char>>;

    closed spec fn view(&self) -> Seq<Seq<char>> {
        texts(self.parts@)
    }
}

impl Path {
    #[verifier::type_invariant]
    spec fn inv(self) -> bool {
        is_path(texts(self.parts@))
    }
}

impl Clone for Path {
    fn clone(&self) -> (path: Self)
        ensures
            path@ == self@,
            is_path(path@),
    {
        proof {
            use_type_invariant(self);
        }
        let mut parts: Vec<String> = Vec::new();
        let mut i: usize = 0;
        while i < self.parts.len()
            invariant
                i <= self.parts@.len(),
                parts@.len() == i,
                forall|j: int| 0 <= j < i ==> (#[trigger] parts@[j])@ == self.parts@[j]@,
            decreases self.parts@.len() - i,
        {
            parts.push(self.parts[i].clone());
            i = i + 1;
        }
        assert(texts(parts@) =~= self@);
        Path { parts }
    }
}

/// What each of the paths says.
pub open spec fn views(paths: Seq<Path>) -> Seq<Seq<Seq<char>>> {
    paths.map_values(|p: Path| p@)
}

/// The same paths once more.
pub fn clone_paths(paths: &Vec<Path>) -> (copy: Vec<Path>)
    ensures
        views(copy@) == views(paths@),
{
    let mut copy: Vec<Path> = Vec::new();
    let mut i: usize = 0;
    while i < paths.len()
        invariant
            i <= paths@.len(),
            copy@.len() == i,
            forall|j: int| 0 <= j < i ==> (#[trigger] copy@[j])@ == paths@[j]@,
        decreases paths@.len() - i,
    {
        copy.push(paths[i].clone());
        i = i + 1;
    }
    assert(views(copy@) =~= views(paths@));
    copy
}

/// Puts one part behind the others, unless it is empty.
fn close_part(parts: &mut Vec<String>, part: String)
    requires
        !part@.contains('/'),
        is_path(texts(old(parts)@)),
    ensures
        texts(final(parts)@) == close(texts(old(parts)@), part@),
        is_path(texts(final(parts)@)),
{
    if part.as_str().unicode_len() > 0 {
        let size: usize = part.as_str().as_bytes().len();
        let ghost had = texts(parts@);
        assert(encode_utf8(part@).len() == size);
        parts.push(part);
        let count: usize = parts.len();
        assert(texts(parts@) =~= had.push(part@));
        assert(texts(parts@).len() == count);
    }
}

impl Path {
    /// The path without any part.
    pub fn empty() -> (path: Self)
        ensures
            path@ == Seq::<Seq<char>>::empty(),
            is_path(path@),
    {
        let parts: Vec<String> = Vec::new();
        assert(texts(parts@) =~= Seq::<Seq<char>>::empty());
        Path { parts }
    }

    /// Takes a text apart at its slashes; leading, trailing and doubled ones do not count.
    pub fn new(s: &str) -> (path: Self)
        ensures
            path@ == path_parts(s@),
            is_path(path@),
    {
        let mut path = Path::empty();
        path.extend(s);
        assert(Seq::<Seq<char>>::empty() + path_parts(s@) =~= path_parts(s@));
        path
    }

    /// Puts the parts of a text behind those that are there.
    pub fn extend(&mut self, s: &str)
        ensures
            final(self)@ == old(self)@ + path_parts(s@),
            is_path(final(self)@),
    {
        proof {
            use_type_invariant(&*self);
            law_parts_are_parts(s@);
        }
        let ghost had = self@;
        let mut parts: Vec<String> = Vec::new();
        assert(texts(parts@) =~= Seq::<Seq<char>>::empty());
        std::mem::swap(&mut parts, &mut self.parts);
        let mut open = String::new();
        assert(s@.take(0) =~= Seq::<char>::empty());
        assert(had + Seq::<Seq<char>>::empty() =~= had);
        for c in it: s.chars()
            invariant
                it.seq() == s@,
                is_path(texts(parts@)),
                texts(parts@) == had + split(s@.take(it.index() as int)).0,
                open@ == split(s@.take(it.index() as int)).1,
        {
            let ghost i = it.index() as int;
            assert(s@.take(i + 1).drop_last() =~= s@.take(i));
            if c == '/' {
                proof {
                    law_parts_are_parts(s@.take(i));
                }
                close_part(&mut parts, open);
                open = String::new();
                assert(texts(parts@) =~= had + split(s@.take(i + 1)).0);
            } else {
                open.push(c);
            }
        }
        assert(s@.take(s@.len() as int) =~= s@);
        close_part(&mut parts, open);
        assert(texts(parts@) =~= had + path_parts(s@));
        self.parts = parts;
    }

    /// Whether two paths have the same parts.
    pub fn same(&self, other: &Path) -> (b: bool)
        ensures
            b == (self@ == other@),
    {
        if self.parts.len() != other.parts.len() {
            assert(self@.len() != other@.len());
            return false;
        }
        let mut i: usize = 0;
        while i < self.parts.len()
            invariant
                i <= self.parts@.len() == other.parts@.len(),
                forall|j: int| 0 <= j < i ==> (#[trigger] self@[j]) == other@[j],
            decreases self.parts@.len() - i,
        {
            if self.parts[i] != other.parts[i] {
                assert(self@[i as int] != other@[i as int]);
                return false;
            }
            assert(self@[i as int] == other@[i as int]);
            i = i + 1;
        }
        assert(self@ =~= other@);
        true
    }

    /// The number of parts.
    pub fn len(&self) -> (n: usize)
        ensures
            n == self@.len(),
            is_path(self@),
    {
        proof {
            use_type_invariant(self);
        }
        self.parts.len()
    }

    /// One of the parts.
    pub fn part(&self, i: usize) -> (s: &str)
        requires
            i < self@.len(),
        ensures
            s@ == self@[i as int],
    {
        self.parts[i].as_str()
    }

    /// The text of the path: its parts with a slash between two of them.
    pub fn as_str(&self) -> (s: String)
        ensures
            s@ == join(self@),
    {
        let mut s = String::new();
        let mut i: usize = 0;
        while i < self.len()
            invariant
                i <= self@.len(),
                s@ == join(self@.take(i as int)),
            decreases self@.len() - i,
        {
            assert(self@.take(i + 1).drop_last() =~= self@.take(i as int));
            if i > 0 {
                s.push('/');
            }
            s.append(self.part(i));
            assert(i == 0 ==> Seq::<char>::empty() + self@[0] =~= self@[0]);
            i = i + 1;
        }
        assert(self@.take(i as int) =~= self@);
        s
    }
}

proof fn lemma_split_behind(a: Seq<char>, b: Seq<char>)
    ensures
        split(a.push('/') + b).0 == path_parts(a) + split(b).0,
        split(a.push('/') + b).1 == split(b).1,
    decreases b.len(),
{
    let both = a.push('/') + b;
    if b.len() == 0 {
        assert(both =~= a.push('/'));
        assert(both.drop_last() =~= a);
        assert(path_parts(a) + split(b).0 =~= path_parts(a));
    } else {
        lemma_split_behind(a, b.drop_last());
        assert(both.drop_last() =~= a.push('/') + b.drop_last());
        assert(both.last() == b.last());
        assert(path_parts(a) + split(b).0 =~= split(both).0);
    }
}

/// A slash parts what is before it from what is behind it: the parts of both are the parts of the
/// whole, in order.
pub proof fn law_slash_parts(a: Seq<char>, b: Seq<char>)
    ensures
        path_parts(a.push('/') + b) == path_parts(a) + path_parts(b),
        path_parts(Seq::<char>::empty()).len() == 0,
{
    lemma_split_behind(a, b);
    assert(path_parts(a.push('/') + b) =~= path_parts(a) + path_parts(b));
}

/// What holds no slash is one part, or none if it is empty.
pub proof fn law_plain_is_one_part(s: Seq<char>)
    requires
        !s.contains('/'),
    ensures
        s.len() > 0 ==> path_parts(s) == seq![s],
        s.len() == 0 ==> path_parts(s).len() == 0,
{
    if s.len() > 0 {
        lemma_one_part(s);
    }
}

} // verus!
