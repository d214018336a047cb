//! Absolute filesystem paths modelled as sequences of byte-string components.
//!
//! A path `/a/b/c` is held as the components `a`, `b`, `c`; the root `/` has
//! no components. Comparisons follow the component-wise semantics of paths:
//! a prefix is a prefix of whole components, and paths are ordered
//! lexicographically by component, each component by its bytes.

use vstd::prelude::*;
use crate::text::is_prefix_of;

verus! {

/// An absolute path, as the byte strings of its normal components.
#[derive(Debug, Clone, PartialEq, Eq, Hash)]
pub struct FsPath {
    pub components: Vec<Vec<u8>>,
}

impl View for FsPath {
    type V = Seq<Seq<u8>>;

    open spec fn view(&self) -> Seq<Seq<u8>> {
        parts_view(self.components@)
    }
}

/// The byte strings held by a sequence of byte vectors.
pub open spec fn parts_view(v: Seq<Vec<u8>>) -> Seq<Seq<u8>> {
    Seq::new(v.len(), |i: int| v[i]@)
}

/// The components, each preceded by a slash: `/a/b` for `a`, `b`.
pub open spec fn slash_joined(p: Seq<Seq<u8>>) -> Seq<u8>
    decreases p.len(),
{
    if p.len() == 0 {
        seq![]
    } else {
        slash_joined(p.drop_last()) + seq![47u8] + p.last()
    }
}

/// The bytes of an absolute path as it is displayed; the root is `/`.
pub open spec fn display_bytes(p: Seq<Seq<u8>>) -> Seq<u8> {
    if p.len() == 0 {
        seq![47u8]
    } else {
        slash_joined(p)
    }
}

/// The bytes of a relative path as it is displayed: `a/b`, or nothing.
pub open spec fn relative_display_bytes(p: Seq<Seq<u8>>) -> Seq<u8> {
    if p.len() == 0 {
        seq![]
    } else {
        slash_joined(p).drop_first()
    }
}

/// A field that splitting keeps: not empty, and not `.` where those are dropped.
pub open spec fn keep_field(f: Seq<u8>, drop_dot: bool) -> bool {
    f.len() > 0 && !(drop_dot && f == single_dot())
}

/// `done`, extended by `cur` when that field is kept.
pub open spec fn close_field(done: Seq<Seq<u8>>, cur: Seq<u8>, drop_dot: bool) -> Seq<Seq<u8>> {
    if keep_field(cur, drop_dot) {
        done.push(cur)
    } else {
        done
    }
}

/// Splitting `b` at each `sep` byte, with the fields `done` already split
/// off and the field `cur` begun.
pub open spec fn fields_from(
    b: Seq<u8>,
    sep: u8,
    drop_dot: bool,
    done: Seq<Seq<u8>>,
    cur: Seq<u8>,
) -> Seq<Seq<u8>>
    decreases b.len(),
{
    if b.len() == 0 {
        close_field(done, cur, drop_dot)
    } else if b[0] == sep {
        fields_from(b.drop_first(), sep, drop_dot, close_field(done, cur, drop_dot), seq![])
    } else {
        fields_from(b.drop_first(), sep, drop_dot, done, cur.push(b[0]))
    }
}

/// The kept fields of `b` between `sep` bytes, in order.
pub open spec fn fields(b: Seq<u8>, sep: u8, drop_dot: bool) -> Seq<Seq<u8>> {
    fields_from(b, sep, drop_dot, seq![], seq![])
}

/// The components of a relative path written with slashes; empty and `.`
/// components are dropped, as joining onto an absolute path drops them.
pub open spec fn relative_components(b: Seq<u8>) -> Seq<Seq<u8>> {
    fields(b, 47u8, true)
}

/// Fields already split off stay in front of those still to come.
proof fn lemma_fields_keep_done(
    b: Seq<u8>,
    sep: u8,
    drop_dot: bool,
    done: Seq<Seq<u8>>,
    cur: Seq<u8>,
)
    ensures
        fields_from(b, sep, drop_dot, done, cur) == done + fields_from(
            b,
            sep,
            drop_dot,
            seq![],
            cur,
        ),
    decreases b.len(),
{
    if b.len() == 0 {
        assert(close_field(done, cur, drop_dot) =~= done + close_field(seq![], cur, drop_dot));
    } else if b[0] == sep {
        lemma_fields_keep_done(b.drop_first(), sep, drop_dot, close_field(done, cur, drop_dot), seq![]);
        lemma_fields_keep_done(
            b.drop_first(),
            sep,
            drop_dot,
            close_field(seq![], cur, drop_dot),
            seq![],
        );
        lemma_fields_keep_done(b.drop_first(), sep, drop_dot, seq![], seq![]);
        assert(close_field(done, cur, drop_dot) =~= done + close_field(seq![], cur, drop_dot));
        assert(close_field(done, cur, drop_dot) + fields_from(b.drop_first(), sep, drop_dot, seq![], seq![])
            =~= done + (close_field(seq![], cur, drop_dot) + fields_from(b.drop_first(), sep, drop_dot, seq![], seq![])));
    } else {
        lemma_fields_keep_done(b.drop_first(), sep, drop_dot, done, cur.push(b[0]));
    }
}

/// A run of bytes without a separator only extends the field begun.
proof fn lemma_fields_one_piece(
    b: Seq<u8>,
    sep: u8,
    drop_dot: bool,
    done: Seq<Seq<u8>>,
    cur: Seq<u8>,
)
    requires
        forall|i: int| 0 <= i < b.len() ==> b[i] != sep,
    ensures
        fields_from(b, sep, drop_dot, done, cur) == close_field(done, cur + b, drop_dot),
    decreases b.len(),
{
    if b.len() == 0 {
        assert(cur + b =~= cur);
    } else {
        assert(b[0] != sep);
        lemma_fields_one_piece(b.drop_first(), sep, drop_dot, done, cur.push(b[0]));
        assert(cur.push(b[0]) + b.drop_first() =~= cur + b);
    }
}

/// Splitting past a separator continues with the fields after it.
proof fn lemma_fields_past_separator(
    a: Seq<u8>,
    b: Seq<u8>,
    sep: u8,
    drop_dot: bool,
    done: Seq<Seq<u8>>,
    cur: Seq<u8>,
)
    ensures
        fields_from(a + seq![sep] + b, sep, drop_dot, done, cur) == fields_from(
            a,
            sep,
            drop_dot,
            done,
            cur,
        ) + fields(b, sep, drop_dot),
    decreases a.len(),
{
    let whole = a + seq![sep] + b;
    if a.len() == 0 {
        assert(whole.drop_first() =~= b);
        assert(whole[0] == sep);
        lemma_fields_keep_done(b, sep, drop_dot, close_field(done, cur, drop_dot), seq![]);
    } else {
        assert(whole.drop_first() =~= a.drop_first() + seq![sep] + b);
        assert(whole[0] == a[0]);
        if a[0] == sep {
            lemma_fields_past_separator(
                a.drop_first(),
                b,
                sep,
                drop_dot,
                close_field(done, cur, drop_dot),
                seq![],
            );
        } else {
            lemma_fields_past_separator(a.drop_first(), b, sep, drop_dot, done, cur.push(a[0]));
        }
    }
}

/// A byte string with no separator in it is one field: kept as the only
/// field unless it is empty (or, where those are dropped, exactly `.`), and
/// then there is none. So a field beginning with a dot, as `.github`, is kept.
pub proof fn law_fields_of_one_piece(b: Seq<u8>, sep: u8, drop_dot: bool)
    requires
        forall|i: int| 0 <= i < b.len() ==> b[i] != sep,
    ensures
        (b.len() > 0 && !(drop_dot && b == seq![46u8])) ==> fields(b, sep, drop_dot) == seq![b],
        !(b.len() > 0 && !(drop_dot && b == seq![46u8])) ==> fields(b, sep, drop_dot)
            == Seq::<Seq<u8>>::empty(),
{
    lemma_fields_one_piece(b, sep, drop_dot, seq![], seq![]);
    assert(Seq::<u8>::empty() + b =~= b);
    assert(single_dot() =~= seq![46u8]);
    assert(Seq::<Seq<u8>>::empty().push(b) =~= seq![b]);
}

/// Splitting at a separator splits the fields: the fields of `a`, a
/// separator and `b` are the fields of `a` followed by those of `b`.
pub proof fn law_fields_split_at_separator(a: Seq<u8>, b: Seq<u8>, sep: u8, drop_dot: bool)
    ensures
        fields(a + seq![sep] + b, sep, drop_dot) == fields(a, sep, drop_dot) + fields(
            b,
            sep,
            drop_dot,
        ),
{
    lemma_fields_past_separator(a, b, sep, drop_dot, seq![], seq![]);
}

/// Appends the bytes of `b` to `out`.
pub fn append_bytes(out: &mut Vec<u8>, b: &[u8])
    ensures
        final(out)@ == old(out)@ + b@,
{
    let mut i: usize = 0;
    while i < b.len()
        invariant
            i <= b@.len(),
            out@ == old(out)@ + b@.subrange(0, i as int),
        decreases b@.len() - i,
    {
        out.push(b[i]);
        i = i + 1;
        assert(out@ =~= old(out)@ + b@.subrange(0, i as int));
    }
    assert(b@.subrange(0, b@.len() as int) =~= b@);
}

/// The components joined, each preceded by a slash.
pub fn slash_join(parts: &Vec<Vec<u8>>) -> (r: Vec<u8>)
    ensures
        r@ == slash_joined(parts_view(parts@)),
{
    let mut out: Vec<u8> = Vec::new();
    let mut i: usize = 0;
    assert(parts_view(parts@).take(0) =~= Seq::<Seq<u8>>::empty());
    while i < parts.len()
        invariant
            i <= parts@.len(),
            out@ == slash_joined(parts_view(parts@).take(i as int)),
        decreases parts@.len() - i,
    {
        out.push(47u8);
        append_bytes(&mut out, parts[i].as_slice());
        assert(parts_view(parts@).take(i + 1).drop_last() =~= parts_view(parts@).take(i as int));
        i = i + 1;
    }
    assert(parts_view(parts@).take(parts@.len() as int) =~= parts_view(parts@));
    out
}

/// Splits `b` at each `sep` byte and keeps the non-empty fields (and, with
/// `drop_dot`, those other than `.`).
pub fn split_fields(b: &[u8], sep: u8, drop_dot: bool) -> (r: Vec<Vec<u8>>)
    ensures
        parts_view(r@) == fields(b@, sep, drop_dot),
{
    let mut done: Vec<Vec<u8>> = Vec::new();
    let mut cur: Vec<u8> = Vec::new();
    let mut i: usize = 0;
    assert(b@.skip(0) =~= b@);
    assert(parts_view(done@) =~= Seq::<Seq<u8>>::empty());
    assert(cur@ =~= Seq::<u8>::empty());
    while i < b.len()
        invariant
            i <= b@.len(),
            fields(b@, sep, drop_dot) == fields_from(
                b@.skip(i as int),
                sep,
                drop_dot,
                parts_view(done@),
                cur@,
            ),
        decreases b@.len() - i,
    {
        assert(b@.skip(i as int).drop_first() =~= b@.skip(i + 1));
        if b[i] == sep {
            let keep = cur.len() > 0 && !(drop_dot && cur.len() == 1 && cur[0] == 46u8);
            assert(keep == keep_field(cur@, drop_dot)) by {
                if cur@.len() == 1 && cur@[0] == 46u8 {
                    assert(cur@ =~= single_dot());
                }
            }
            let ghost old_done = parts_view(done@);
            if keep {
                done.push(cur);
                assert(parts_view(done@) =~= old_done.push(cur@));
            }
            cur = Vec::new();
            assert(cur@ =~= Seq::<u8>::empty());
        } else {
            cur.push(b[i]);
        }
        i = i + 1;
    }
    let keep = cur.len() > 0 && !(drop_dot && cur.len() == 1 && cur[0] == 46u8);
    assert(keep == keep_field(cur@, drop_dot)) by {
        if cur@.len() == 1 && cur@[0] == 46u8 {
            assert(cur@ =~= single_dot());
        }
    }
    let ghost old_done = parts_view(done@);
    if keep {
        done.push(cur);
        assert(parts_view(done@) =~= old_done.push(cur@));
    }
    done
}

/// The components of a relative path that Git lists, as raw bytes.
pub fn path_from_git_bytes(bytes: &[u8]) -> (r: Vec<Vec<u8>>)
    ensures
        parts_view(r@) == relative_components(bytes@),
{
    split_fields(bytes, 47u8, true)
}

/// The bytes of the component `.git`.
pub open spec fn dot_git() -> Seq<u8> {
    seq![46u8, 103u8, 105u8, 116u8]
}

/// The bytes of the component `.`.
pub open spec fn single_dot() -> Seq<u8> {
    seq![46u8]
}

/// Some component of `p` is exactly `name`.
pub open spec fn has_component(p: Seq<Seq<u8>>, name: Seq<u8>) -> bool {
    exists|i: int| 0 <= i < p.len() && p[i] == name
}

/// A path has a `.git` component exactly when one of its components is the
/// four bytes `.git`.
pub proof fn law_dot_git_component(p: Seq<Seq<u8>>)
    ensures
        has_component(p, dot_git()) <==> p.contains(seq![46u8, 103u8, 105u8, 116u8]),
{
    assert(dot_git() =~= seq![46u8, 103u8, 105u8, 116u8]);
}

/// Byte-wise equality of two byte strings.
pub fn bytes_equal(a: &[u8], b: &[u8]) -> (r: bool)
    ensures
        r == (a@ == b@),
{
    if a.len() != b.len() {
        return false;
    }
    let mut i: usize = 0;
    while i < a.len()
        invariant
            a@.len() == b@.len(),
            i <= a@.len(),
            forall|j: int| 0 <= j < i ==> a@[j] == b@[j],
        decreases a@.len() - i,
    {
        if a[i] != b[i] {
            return false;
        }
        i = i + 1;
    }
    assert(a@ =~= b@);
    true
}

/// Whether a byte string is the component `.git`.
pub fn is_dot_git(c: &[u8]) -> (r: bool)
    ensures
        r == (c@ == dot_git()),
{
    if c.len() != 4 {
        return false;
    }
    let r = c[0] == 46u8 && c[1] == 103u8 && c[2] == 105u8 && c[3] == 116u8;
    if r {
        assert(c@ =~= dot_git());
    }
    r
}

/// Copies a byte string.
pub fn copy_bytes(c: &[u8]) -> (r: Vec<u8>)
    ensures
        r@ == c@,
{
    let mut r: Vec<u8> = Vec::new();
    let mut i: usize = 0;
    while i < c.len()
        invariant
            i <= c@.len(),
            r@ == c@.subrange(0, i as int),
        decreases c@.len() - i,
    {
        r.push(c[i]);
        i = i + 1;
        assert(r@ =~= c@.subrange(0, i as int));
    }
    assert(c@.subrange(0, c@.len() as int) =~= c@);
    r
}

impl FsPath {
    /// The filesystem root `/`.
    pub fn root() -> (r: FsPath)
        ensures
            r@ == Seq::<Seq<u8>>::empty(),
    {
        let r = FsPath { components: Vec::new() };
        assert(r@ =~= Seq::<Seq<u8>>::empty());
        r
    }

    /// The path extended by one more component.
    pub fn join_component(&self, name: &[u8]) -> (r: FsPath)
        ensures
            r@ == self@.push(name@),
    {
        let mut r = self.duplicate();
        r.components.push(copy_bytes(name));
        assert(r@ =~= self@.push(name@));
        r
    }

    /// The path with the components of a relative path appended.
    pub fn join_parts(&self, parts: Vec<Vec<u8>>) -> (r: FsPath)
        ensures
            r@ == self@ + parts_view(parts@),
    {
        let mut r = self.duplicate();
        let mut rest = parts;
        let ghost orig = parts_view(rest@);
        let mut i: usize = 0;
        let n = rest.len();
        while i < n
            invariant
                n == orig.len(),
                rest@.len() == n,
                parts_view(rest@) == orig,
                i <= n,
                r@ == self@ + orig.take(i as int),
            decreases n - i,
        {
            let c = copy_bytes(rest[i].as_slice());
            assert(orig[i as int] == c@);
            let ghost before = r@;
            r.components.push(c);
            assert(r@ =~= before.push(orig[i as int]));
            assert(orig.take(i + 1) =~= orig.take(i as int).push(orig[i as int]));
            assert(r@ =~= self@ + orig.take(i + 1));
            i = i + 1;
        }
        assert(orig.take(n as int) =~= orig);
        r
    }

    /// The bytes of the path as it is displayed.
    pub fn display_bytes(&self) -> (r: Vec<u8>)
        ensures
            r@ == display_bytes(self@),
    {
        if self.components.len() == 0 {
            let mut r: Vec<u8> = Vec::new();
            r.push(47u8);
            assert(r@ =~= seq![47u8]);
            r
        } else {
            slash_join(&self.components)
        }
    }

    /// The path made of the first `k` components.
    pub fn prefix(&self, k: usize) -> (r: FsPath)
        requires
            k <= self@.len(),
        ensures
            r@ == self@.take(k as int),
    {
        let mut out: Vec<Vec<u8>> = Vec::new();
        let mut i: usize = 0;
        while i < k
            invariant
                k <= self@.len(),
                self@.len() == self.components@.len(),
                i <= k,
                out@.len() == i,
                forall|j: int| 0 <= j < i ==> #[trigger] out@[j]@ == self@[j],
            decreases k - i,
        {
            out.push(copy_bytes(self.components[i].as_slice()));
            i = i + 1;
        }
        let r = FsPath { components: out };
        assert(r@ =~= self@.take(k as int));
        r
    }

    /// An equal copy of the path.
    pub fn duplicate(&self) -> (r: FsPath)
        ensures
            r@ == self@,
    {
        let mut out: Vec<Vec<u8>> = Vec::new();
        let mut i: usize = 0;
        while i < self.components.len()
            invariant
                i <= self@.len(),
                self@.len() == self.components@.len(),
                out@.len() == i,
                forall|j: int| 0 <= j < i ==> #[trigger] out@[j]@ == self@[j],
            decreases self.components@.len() - i,
        {
            let c = copy_bytes(self.components[i].as_slice());
            out.push(c);
            i = i + 1;
        }
        let r = FsPath { components: out };
        assert(r@ =~= self@);
        r
    }

    /// Component-wise equality.
    pub fn same_as(&self, other: &FsPath) -> (r: bool)
        ensures
            r == (self@ == other@),
    {
        if self.components.len() != other.components.len() {
            assert(self@.len() != other@.len());
            return false;
        }
        let mut i: usize = 0;
        while i < self.components.len()
            invariant
                self@.len() == self.components@.len(),
                other@.len() == other.components@.len(),
                self@.len() == other@.len(),
                i <= self@.len(),
                forall|j: int| 0 <= j < i ==> self@[j] == other@[j],
            decreases self.components@.len() - i,
        {
            if !bytes_equal(self.components[i].as_slice(), other.components[i].as_slice()) {
                assert(self@[i as int] != other@[i as int]);
                return false;
            }
            i = i + 1;
        }
        assert(self@ =~= other@);
        true
    }

    /// Whether `base` is a prefix of this path, in whole components.
    pub fn starts_with(&self, base: &FsPath) -> (r: bool)
        ensures
            r == is_prefix_of(base@, self@),
    {
        let n = base.components.len();
        if n > self.components.len() {
            return false;
        }
        let mut i: usize = 0;
        while i < n
            invariant
                n == base@.len(),
                base@.len() == base.components@.len(),
                self@.len() == self.components@.len(),
                n <= self@.len(),
                i <= n,
                forall|j: int| 0 <= j < i ==> self@[j] == base@[j],
            decreases n - i,
        {
            if !bytes_equal(self.components[i].as_slice(), base.components[i].as_slice()) {
                assert(self@.subrange(0, n as int)[i as int] != base@[i as int]);
                return false;
            }
            i = i + 1;
        }
        assert(self@.subrange(0, n as int) =~= base@);
        true
    }

    /// Whether some component of the path is `.git`.
    pub fn has_dot_git(&self) -> (r: bool)
        ensures
            r == has_component(self@, dot_git()),
    {
        let mut i: usize = 0;
        while i < self.components.len()
            invariant
                self@.len() == self.components@.len(),
                i <= self@.len(),
                forall|j: int| 0 <= j < i ==> self@[j] != dot_git(),
            decreases self.components@.len() - i,
        {
            if is_dot_git(self.components[i].as_slice()) {
                assert(self@[i as int] == dot_git());
                return true;
            }
            i = i + 1;
        }
        false
    }

    /// Whether some component from position `k` on is `.git`.
    pub fn has_dot_git_from(&self, k: usize) -> (r: bool)
        requires
            k <= self@.len(),
        ensures
            r == has_component(self@.skip(k as int), dot_git()),
    {
        let mut i: usize = k;
        while i < self.components.len()
            invariant
                self@.len() == self.components@.len(),
                k <= i <= self@.len(),
                forall|j: int| k <= j < i ==> self@[j] != dot_git(),
            decreases self.components@.len() - i,
        {
            if is_dot_git(self.components[i].as_slice()) {
                assert(self@.skip(k as int)[i - k] == dot_git());
                return true;
            }
            i = i + 1;
        }
        assert forall|j: int| 0 <= j < self@.skip(k as int).len() implies self@.skip(k as int)[j]
            != dot_git() by {
            assert(self@.skip(k as int)[j] == self@[k + j]);
        }
        false
    }

    /// The components that follow `base`, when `base` is a prefix of the path.
    pub fn strip_prefix(&self, base: &FsPath) -> (r: Option<Vec<Vec<u8>>>)
        ensures
            r is Some <==> is_prefix_of(base@, self@),
            r matches Some(rest) ==> parts_view(rest@) == self@.skip(base@.len() as int),
    {
        if !self.starts_with(base) {
            return None;
        }
        let n = base.components.len();
        let mut rest: Vec<Vec<u8>> = Vec::new();
        let mut i: usize = n;
        while i < self.components.len()
            invariant
                n == base@.len(),
                n <= i <= self@.len(),
                self@.len() == self.components@.len(),
                rest@.len() == i - n,
                forall|j: int| 0 <= j < rest@.len() ==> #[trigger] rest@[j]@ == self@[n + j],
            decreases self.components@.len() - i,
        {
            rest.push(copy_bytes(self.components[i].as_slice()));
            i = i + 1;
        }
        assert(parts_view(rest@) =~= self@.skip(n as int));
        Some(rest)
    }
}

} // verus!
