use vstd::prelude::*;

verus! {

/// Whether a character is a letter (Unicode `Alphabetic`).
pub uninterp spec fn is_letter(c: char) -> bool;

/// Relies on `char::is_alphabetic`: whether the character has the Unicode
/// `Alphabetic` property, which depends on the character alone; ASCII
/// letters have it.
#[verifier::external_body]
fn char_is_letter(c: char) -> (r: bool)
    ensures
        r == is_letter(c),
        ('a' <= c && c <= 'z') || ('A' <= c && c <= 'Z') ==> r,
{
    c.is_alphabetic()
}

/// A character that may start an identifier: a letter or `_`.
pub open spec fn is_ident_start(c: char) -> bool {
    is_letter(c) || c == '_'
}

/// A character that may follow the first one in an identifier.
pub open spec fn is_ident_continue(c: char) -> bool {
    is_ident_start(c) || ('0' <= c && c <= '9')
}

/// The key grammar: a non-empty run of letters, digits and underscores that
/// does not start with a digit.
pub open spec fn is_key(s: Seq<char>) -> bool {
    &&& s.len() > 0
    &&& is_ident_start(s[0])
    &&& forall|i: int| 1 <= i < s.len() ==> is_ident_continue(#[trigger] s[i])
}

/// What `make_key` gives for a raw string: the key's text, or nothing.
pub open spec fn key_of(s: Seq<char>) -> Option<Seq<char>> {
    if is_key(s) {
        Some(s)
    } else {
        None
    }
}

/// A validated identifier.
#[derive(Debug, Clone)]
pub struct Key {
    name: String,
}

impl View for Key {
    type V = Seq<char>;

    closed spec fn view(&self) -> Seq<char> {
        self.name@
    }
}

impl Key {
    /// Every key holds text of the key grammar.
    pub closed spec fn wf(&self) -> bool {
        is_key(self.name@)
    }

    /// The key's text.
    pub fn as_str(&self) -> (r: &str)
        ensures
            r@ == self@,
    {
        self.name.as_str()
    }

    /// A second key with the same text.
    pub fn duplicate(&self) -> (r: Key)
        ensures
            r@ == self@,
            self.wf() ==> r.wf(),
    {
        Key { name: self.name.clone() }
    }

    /// Whether two keys have the same text.
    pub fn same_as(&self, other: &Key) -> (r: bool)
        ensures
            r == (self@ == other@),
    {
        self.name == other.name
    }
}

/// Whether `s` follows the key grammar.
pub fn is_valid_key(s: &str) -> (r: bool)
    ensures
        r == is_key(s@),
{
    let n = s.unicode_len();
    if n == 0 {
        return false;
    }
    let c0 = s.get_char(0);
    if !(c0 == '_' || char_is_letter(c0)) {
        return false;
    }
    let mut i: usize = 1;
    while i < n
        invariant
            1 <= i <= n,
            n == s@.len(),
            forall|j: int| 1 <= j < i ==> is_ident_continue(#[trigger] s@[j]),
        decreases n - i,
    {
        let c = s.get_char(i);
        if !(c == '_' || ('0' <= c && c <= '9') || char_is_letter(c)) {
            assert(!is_ident_continue(s@[i as int]));
            return false;
        }
        i = i + 1;
    }
    true
}

/// Builds a key from raw text; fails with `InvalidKey` carrying the text when
/// it is not an identifier.
pub fn make_key(raw: &str) -> (r: Result<Key, crate::error::Error>)
    ensures
        match r {
            Ok(k) => key_of(raw@) == Some(k@) && k.wf(),
            Err(e) => key_of(raw@) is None && e is InvalidKey && e->InvalidKey_0@ == raw@,
        },
{
    if is_valid_key(raw) {
        Ok(Key { name: String::from_str(raw) })
    } else {
        Err(crate::error::Error::InvalidKey(String::from_str(raw)))
    }
}

/// The text of a key path: its keys joined by dots.
pub open spec fn join_dots(keys: Seq<Seq<char>>) -> Seq<char>
    decreases keys.len(),
{
    if keys.len() == 0 {
        Seq::empty()
    } else if keys.len() == 1 {
        keys[0]
    } else {
        join_dots(keys.drop_last()) + seq!['.'] + keys.last()
    }
}

/// The sequence of keys from a namespace root towards an entry.
#[derive(Debug, Clone)]
pub struct KeyPath {
    keys: Vec<Key>,
}

impl View for KeyPath {
    type V = Seq<Seq<char>>;

    closed spec fn view(&self) -> Seq<Seq<char>> {
        self.keys@.map_values(|k: Key| k@)
    }
}

impl KeyPath {
    /// Every key of the path is well formed.
    pub closed spec fn wf(&self) -> bool {
        forall|i: int| 0 <= i < self.keys@.len() ==> (#[trigger] self.keys@[i]).wf()
    }

    /// The keys of a well-formed path follow the key grammar.
    pub proof fn lemma_wf_keys(&self, i: int)
        requires
            self.wf(),
            0 <= i < self@.len(),
        ensures
            is_key(self@[i]),
    {
        assert(self.keys@[i].wf());
    }

    /// The empty path, at a namespace root.
    pub fn new() -> (r: KeyPath)
        ensures
            r@ == Seq::<Seq<char>>::empty(),
            r.wf(),
    {
        let r = KeyPath { keys: Vec::new() };
        assert(r@ =~= Seq::<Seq<char>>::empty());
        r
    }

    /// The number of keys in the path.
    pub fn len(&self) -> (r: usize)
        ensures
            r == self@.len(),
    {
        self.keys.len()
    }

    /// The key at a given depth.
    pub fn key_at(&self, i: usize) -> (r: &Key)
        requires
            i < self@.len(),
        ensures
            r@ == self@[i as int],
            self.wf() ==> r.wf(),
    {
        &self.keys[i]
    }

    /// Goes one level deeper.
    pub fn push_key(&mut self, k: Key)
        ensures
            final(self)@ == old(self)@.push(k@),
            old(self).wf() && k.wf() ==> final(self).wf(),
    {
        self.keys.push(k);
        assert(self.keys@.map_values(|k: Key| k@) =~= old(self)@.push(k@));
    }

    /// Goes one level up; returns the key left, if any.
    pub fn pop_key(&mut self) -> (r: Option<Key>)
        ensures
            old(self)@.len() == 0 ==> r is None && final(self)@ == old(self)@,
            old(self)@.len() > 0 ==> r is Some && r->0@ == old(self)@.last()
                && final(self)@ == old(self)@.drop_last(),
            old(self).wf() ==> final(self).wf(),
    {
        let r = self.keys.pop();
        assert(self.keys@.map_values(|k: Key| k@) =~= if old(self)@.len() > 0 {
            old(self)@.drop_last()
        } else {
            old(self)@
        });
        r
    }

    /// A second path with the same keys.
    pub fn duplicate(&self) -> (r: KeyPath)
        ensures
            r@ == self@,
            self.wf() ==> r.wf(),
    {
        let mut out = KeyPath::new();
        let mut i: usize = 0;
        while i < self.keys.len()
            invariant
                i <= self@.len(),
                out@ == self@.subrange(0, i as int),
                self.wf() ==> out.wf(),
            decreases self@.len() - i,
        {
            let k = self.keys[i].duplicate();
            out.push_key(k);
            i = i + 1;
            assert(out@ =~= self@.subrange(0, i as int));
        }
        assert(self@.subrange(0, self@.len() as int) =~= self@);
        out
    }

    /// Whether two paths hold the same keys in the same order.
    pub fn same_as(&self, other: &KeyPath) -> (r: bool)
        ensures
            r == (self@ == other@),
    {
        if self.keys.len() != other.keys.len() {
            assert(self@.len() != other@.len());
            return false;
        }
        let mut i: usize = 0;
        while i < self.keys.len()
            invariant
                i <= self@.len(),
                self@.len() == other@.len(),
                forall|j: int| 0 <= j < i ==> self@[j] == other@[j],
            decreases self@.len() - i,
        {
            if !self.keys[i].same_as(&other.keys[i]) {
                assert(self@[i as int] != other@[i as int]);
                return false;
            }
            i = i + 1;
        }
        assert(self@ =~= other@);
        true
    }

    /// The dotted text of the path, as every diagnostic shows it.
    pub fn render(&self) -> (r: String)
        ensures
            r@ == join_dots(self@),
    {
        let mut out = String::new();
        let mut i: usize = 0;
        while i < self.keys.len()
            invariant
                i <= self@.len(),
                out@ == join_dots(self@.subrange(0, i as int)),
            decreases self@.len() - i,
        {
            let ghost prev = self@.subrange(0, i as int);
            let ghost next = self@.subrange(0, i as int + 1);
            assert(next.drop_last() =~= prev);
            if i > 0 {
                proof {
                    reveal_strlit(".");
                }
                out.append(".");
            } else {
                assert(out@ =~= Seq::<char>::empty());
            }
            out.append(self.keys[i].as_str());
            i = i + 1;
            assert(out@ =~= join_dots(next));
        }
        assert(self@.subrange(0, self@.len() as int) =~= self@);
        out
    }
}

/// A key that `make_key` accepts is kept as it was written: building it and
/// reading its text back gives the raw string.
pub proof fn lemma_key_round_trip(s: Seq<char>)
    requires
        is_key(s),
    ensures
        key_of(s) == Some(s),
{
}

/// `j` is the last dot of `s`.
pub open spec fn is_last_dot(s: Seq<char>, j: int) -> bool {
    &&& 0 <= j < s.len()
    &&& s[j] == '.'
    &&& forall|k: int| j < k < s.len() ==> #[trigger] s[k] != '.'
}

/// The pieces of `s` between its dots.
pub open spec fn split_dots(s: Seq<char>) -> Seq<Seq<char>>
    decreases s.len(),
{
    if exists|j: int| is_last_dot(s, j) {
        let j = choose|j: int| is_last_dot(s, j);
        split_dots(s.subrange(0, j)).push(s.subrange(j + 1, s.len() as int))
    } else {
        seq![s]
    }
}

proof fn lemma_last_dot_unique(s: Seq<char>, a: int, b: int)
    requires
        is_last_dot(s, a),
        is_last_dot(s, b),
    ensures
        a == b,
{
    if a < b {
        assert(s[b] != '.');
    } else if b < a {
        assert(s[a] != '.');
    }
}

/// Splitting at the last dot `j`.
proof fn lemma_split_at(s: Seq<char>, j: int)
    requires
        is_last_dot(s, j),
    ensures
        split_dots(s) == split_dots(s.subrange(0, j)).push(s.subrange(j + 1, s.len() as int)),
{
    let k = choose|k: int| is_last_dot(s, k);
    lemma_last_dot_unique(s, j, k);
}

proof fn lemma_split_nonempty(s: Seq<char>)
    ensures
        split_dots(s).len() >= 1,
    decreases s.len(),
{
    if exists|j: int| is_last_dot(s, j) {
        let j = choose|j: int| is_last_dot(s, j);
        lemma_split_nonempty(s.subrange(0, j));
    }
}

proof fn lemma_join_split(s: Seq<char>)
    ensures
        join_dots(split_dots(s)) == s,
    decreases s.len(),
{
    if exists|j: int| is_last_dot(s, j) {
        let j = choose|j: int| is_last_dot(s, j);
        let pre = split_dots(s.subrange(0, j));
        lemma_split_nonempty(s.subrange(0, j));
        lemma_join_split(s.subrange(0, j));
        let all = pre.push(s.subrange(j + 1, s.len() as int));
        assert(all.drop_last() =~= pre);
        assert(s =~= s.subrange(0, j) + seq!['.'] + s.subrange(j + 1, s.len() as int));
    }
}

/// Splits `s` at its dots.
fn split_at_dots(s: &str) -> (r: Vec<String>)
    ensures
        r@.len() == split_dots(s@).len(),
        forall|i: int| 0 <= i < r@.len() ==> (#[trigger] r@[i])@ == split_dots(s@)[i],
{
    let n = s.unicode_len();
    let mut segs: Vec<String> = Vec::new();
    let mut start: usize = 0;
    let mut i: usize = 0;
    while i < n
        invariant
            n == s@.len(),
            start <= i <= n,
            forall|k: int| start <= k < i ==> #[trigger] s@[k] != '.',
            start == 0 ==> segs@.len() == 0,
            start > 0 ==> s@[start - 1] == '.' && segs@.len() == split_dots(
                s@.subrange(0, start - 1),
            ).len() && forall|k: int|
                0 <= k < segs@.len() ==> (#[trigger] segs@[k])@ == split_dots(
                    s@.subrange(0, start - 1),
                )[k],
        decreases n - i,
    {
        if s.get_char(i) == '.' {
            let seg = s.substring_char(start, i);
            let ghost t = s@.subrange(0, i as int);
            proof {
                if start > 0 {
                    assert(is_last_dot(t, start - 1));
                    lemma_split_at(t, start - 1);
                    assert(t.subrange(0, start - 1) =~= s@.subrange(0, start - 1));
                    assert(t.subrange(start as int, t.len() as int) =~= s@.subrange(start as int, i as int));
                } else {
                    assert(!exists|j: int| is_last_dot(t, j));
                    assert(t =~= s@.subrange(0, i as int));
                }
            }
            segs.push(String::from_str(seg));
            start = i + 1;
            assert(s@.subrange(0, start - 1) =~= t);
        }
        i = i + 1;
    }
    let last = s.substring_char(start, n);
    proof {
        if start > 0 {
            assert(is_last_dot(s@, start - 1));
            lemma_split_at(s@, start - 1);
        } else {
            assert(!exists|j: int| is_last_dot(s@, j));
        }
    }
    segs.push(String::from_str(last));
    segs
}

/// Reads a dotted key path such as `a.b.c`: each piece between dots must be
/// a key, else the first piece that is not fails with `InvalidKey`.
pub fn parse_key_path(s: &str) -> (r: Result<KeyPath, crate::error::Error>)
    ensures
        match r {
            Ok(p) => p@ == split_dots(s@) && p.wf(),
            Err(e) => e is InvalidKey && exists|i: int|
                0 <= i < split_dots(s@).len() && !is_key(split_dots(s@)[i])
                    && e->InvalidKey_0@ == split_dots(s@)[i],
        },
{
    let segs = split_at_dots(s);
    let mut p = KeyPath::new();
    let mut i: usize = 0;
    while i < segs.len()
        invariant
            i <= segs@.len(),
            segs@.len() == split_dots(s@).len(),
            forall|k: int| 0 <= k < segs@.len() ==> (#[trigger] segs@[k])@ == split_dots(s@)[k],
            p@ == split_dots(s@).subrange(0, i as int),
            p.wf(),
        decreases segs@.len() - i,
    {
        match make_key(segs[i].as_str()) {
            Ok(k) => {
                p.push_key(k);
                assert(p@ =~= split_dots(s@).subrange(0, i + 1));
            },
            Err(e) => {
                return Err(e);
            },
        }
        i = i + 1;
    }
    assert(p@ =~= split_dots(s@));
    Ok(p)
}

/// A key path that `parse_key_path` reads renders back to the text it was
/// read from.
pub proof fn lemma_key_path_round_trip(s: Seq<char>)
    ensures
        join_dots(split_dots(s)) == s,
{
    lemma_join_split(s);
}

} // verus!
