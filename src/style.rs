use vstd::prelude::*;

use smallvec::SmallVec;

verus! {

/// The declarations of a style, kept inline for the first eight. Verus
/// does not take `SmallVec`'s declaration, so the vector sits in a field
/// that it does not see, and `tag_entries` names what it holds.
#[verifier::external_body]
#[derive(Debug)]
pub struct StyleTags {
    tags: SmallVec<[StyleTag; 8]>,
}

/// The declarations a tag list holds, in order, each as its name and value.
pub uninterp spec fn tag_entries(tags: StyleTags) -> Seq<(Seq<char>, Seq<char>)>;

/// Relies on `SmallVec::new`: a new vector is empty.
#[verifier::external_body]
fn tags_new() -> (r: StyleTags)
    ensures
        tag_entries(r) == Seq::<(Seq<char>, Seq<char>)>::empty(),
{
    StyleTags { tags: SmallVec::new() }
}

/// Relies on `SmallVec::len`: the number of elements stored.
#[verifier::external_body]
fn tags_len(tags: &StyleTags) -> (r: usize)
    ensures
        r == tag_entries(*tags).len(),
{
    tags.tags.len()
}

/// Relies on `SmallVec`'s `Index`: the element at `i`, which must be in
/// bounds.
#[verifier::external_body]
fn tags_get(tags: &StyleTags, i: usize) -> (r: &StyleTag)
    requires
        i < tag_entries(*tags).len(),
    ensures
        (r.name@, r.value@) == tag_entries(*tags)[i as int],
{
    &tags.tags[i]
}

/// Relies on `SmallVec`'s `IndexMut`: replaces the value of the element at
/// `i`, which must be in bounds, and leaves the rest alone.
#[verifier::external_body]
fn tags_set_value(tags: &mut StyleTags, i: usize, value: String)
    requires
        i < tag_entries(*old(tags)).len(),
    ensures
        tag_entries(*final(tags)) == tag_entries(*old(tags)).update(
            i as int,
            (tag_entries(*old(tags))[i as int].0, value@),
        ),
{
    tags.tags[i].value = value;
}

/// Relies on `SmallVec::push`: appends the element at the end.
#[verifier::external_body]
fn tags_push(tags: &mut StyleTags, tag: StyleTag)
    ensures
        tag_entries(*final(tags)) == tag_entries(*old(tags)).push((tag.name@, tag.value@)),
{
    tags.tags.push(tag);
}

/// Relies on `SmallVec`'s `Extend`: appends the elements of `other` in
/// their order.
#[verifier::external_body]
fn tags_extend(tags: &mut StyleTags, other: StyleTags)
    ensures
        tag_entries(*final(tags)) == tag_entries(*old(tags)) + tag_entries(other),
{
    tags.tags.extend(other.tags);
}

/// One style declaration, `name:value`.
#[derive(Debug)]
pub struct StyleTag {
    pub name: String,
    pub value: String,
}

impl Clone for StyleTag {
    fn clone(&self) -> (r: Self)
        ensures
            r.name@ == self.name@,
            r.value@ == self.value@,
    {
        StyleTag { name: self.name.clone(), value: self.value.clone() }
    }
}

impl Default for StyleTag {
    fn default() -> (r: Self)
        ensures
            r.name@ == Seq::<char>::empty(),
            r.value@ == Seq::<char>::empty(),
    {
        StyleTag { name: String::new(), value: String::new() }
    }
}

impl StyleTag {
    #[inline]
    pub fn new(name: &str, value: &str) -> (r: Self)
        ensures
            r.name@ == name@,
            r.value@ == value@,
    {
        StyleTag { name: name.to_owned(), value: value.to_owned() }
    }
}

/// The first declaration from `i` on that is named `name`, or the count
/// when there is none.
pub open spec fn first_named(e: Seq<(Seq<char>, Seq<char>)>, name: Seq<char>, i: int) -> int
    decreases e.len() - i,
{
    if i < 0 || i >= e.len() {
        e.len() as int
    } else if e[i].0 == name {
        i
    } else {
        first_named(e, name, i + 1)
    }
}

/// The declarations after setting `name` to `value`: the first declaration of
/// that name takes the value, and without one a declaration is appended.
pub open spec fn with_declaration(e: Seq<(Seq<char>, Seq<char>)>, name: Seq<char>, value: Seq<char>) -> Seq<
    (Seq<char>, Seq<char>),
> {
    let i = first_named(e, name, 0);
    if i < e.len() {
        e.update(i, (name, value))
    } else {
        e.push((name, value))
    }
}

/// The declarations written out, each as `name:value;`.
pub open spec fn serialized(e: Seq<(Seq<char>, Seq<char>)>) -> Seq<char>
    decreases e.len(),
{
    if e.len() == 0 {
        Seq::empty()
    } else {
        serialized(e.drop_last()) + e.last().0 + seq![':'] + e.last().1 + seq![';']
    }
}

/// The characters that `char::is_whitespace` accepts: those of Unicode's
/// White_Space property.
pub open spec fn is_white_space(c: char) -> bool {
    let u = c as u32;
    (0x9 <= u && u <= 0xd) || u == 0x20 || u == 0x85 || u == 0xa0 || u == 0x1680 || (0x2000 <= u
        && u <= 0x200a) || u == 0x2028 || u == 0x2029 || u == 0x202f || u == 0x205f || u == 0x3000
}

fn white_space(c: char) -> (r: bool)
    ensures
        r == is_white_space(c),
{
    let u = c as u32;
    (0x9 <= u && u <= 0xd) || u == 0x20 || u == 0x85 || u == 0xa0 || u == 0x1680 || (0x2000 <= u
        && u <= 0x200a) || u == 0x2028 || u == 0x2029 || u == 0x202f || u == 0x205f || u == 0x3000
}

/// The first index in `i..hi` that holds `sep`, or `hi`.
pub open spec fn sep_from(s: Seq<char>, sep: char, i: int, hi: int) -> int
    decreases hi - i,
{
    if i >= hi {
        hi
    } else if s[i] == sep {
        i
    } else {
        sep_from(s, sep, i + 1, hi)
    }
}

/// The first index in `i..hi` that is not white space, or `hi`.
pub open spec fn trim_lo(s: Seq<char>, i: int, hi: int) -> int
    decreases hi - i,
{
    if i >= hi {
        hi
    } else if is_white_space(s[i]) {
        trim_lo(s, i + 1, hi)
    } else {
        i
    }
}

/// The end of `lo..j` once white space is taken off its end.
pub open spec fn trim_hi(s: Seq<char>, lo: int, j: int) -> int
    decreases j - lo,
{
    if j <= lo {
        lo
    } else if is_white_space(s[j - 1]) {
        trim_hi(s, lo, j - 1)
    } else {
        j
    }
}

/// `s[lo..hi]` with white space taken off both ends.
pub open spec fn trimmed(s: Seq<char>, lo: int, hi: int) -> Seq<char> {
    let a = trim_lo(s, lo, hi);
    s.subrange(a, trim_hi(s, a, hi))
}

/// The name and value of the declaration `s[lo..hi]`: the text before the
/// first `:` and the text between it and the next `:` (or the end), both
/// trimmed. Without a `:` the value is empty.
pub open spec fn declaration(s: Seq<char>, lo: int, hi: int) -> (Seq<char>, Seq<char>) {
    let c = sep_from(s, ':', lo, hi);
    let name = trimmed(s, lo, c);
    let value = if c < hi {
        trimmed(s, c + 1, sep_from(s, ':', c + 1, hi))
    } else {
        Seq::empty()
    };
    (name, value)
}

/// The declarations after reading `s` from `start`: each `;`-separated
/// segment with a non-empty name and value is set in turn.
pub open spec fn parsed_from(e: Seq<(Seq<char>, Seq<char>)>, s: Seq<char>, start: int) -> Seq<
    (Seq<char>, Seq<char>),
>
    decreases s.len() - start + 1,
{
    if start < 0 || start > s.len() {
        e
    } else {
        let end = sep_from(s, ';', start, s.len() as int);
        let d = declaration(s, start, end);
        let next = if d.0.len() > 0 && d.1.len() > 0 {
            with_declaration(e, d.0, d.1)
        } else {
            e
        };
        if end >= s.len() || end < start {
            next
        } else {
            parsed_from(next, s, end + 1)
        }
    }
}

fn find_sep(s: &Vec<char>, sep: char, lo: usize, hi: usize) -> (r: usize)
    requires
        lo <= hi <= s@.len(),
    ensures
        r == sep_from(s@, sep, lo as int, hi as int),
        lo <= r <= hi,
{
    let mut i = lo;
    while i < hi
        invariant
            lo <= i <= hi <= s@.len(),
            sep_from(s@, sep, lo as int, hi as int) == sep_from(s@, sep, i as int, hi as int),
        decreases hi - i,
    {
        if s[i] == sep {
            return i;
        }
        i = i + 1;
    }
    i
}

fn trim_range(s: &Vec<char>, lo: usize, hi: usize) -> (r: (usize, usize))
    requires
        lo <= hi <= s@.len(),
    ensures
        r.0 == trim_lo(s@, lo as int, hi as int),
        r.1 == trim_hi(s@, r.0 as int, hi as int),
        lo <= r.0 <= r.1 <= hi,
{
    let mut a = lo;
    while a < hi && white_space(s[a])
        invariant
            lo <= a <= hi <= s@.len(),
            trim_lo(s@, lo as int, hi as int) == trim_lo(s@, a as int, hi as int),
        decreases hi - a,
    {
        a = a + 1;
    }
    let mut b = hi;
    while b > a && white_space(s[b - 1])
        invariant
            a <= b <= hi <= s@.len(),
            trim_hi(s@, a as int, hi as int) == trim_hi(s@, a as int, b as int),
        decreases b - a,
    {
        b = b - 1;
    }
    (a, b)
}

/// A list of style declarations, written out as one attribute value.
/// Setting a name that is already there replaces its value.
#[derive(Debug)]
pub struct Style {
    pub tags: StyleTags,
}

impl Clone for Style {
    fn clone(&self) -> (r: Self)
        ensures
            r@ == self@,
    {
        let mut tags = tags_new();
        let len = tags_len(&self.tags);
        let mut i: usize = 0;
        while i < len
            invariant
                len == self@.len(),
                i <= len,
                tag_entries(tags) == self@.take(i as int),
            decreases len - i,
        {
            let tag = tags_get(&self.tags, i).clone();
            tags_push(&mut tags, tag);
            assert(self@.take(i + 1) == self@.take(i as int).push(self@[i as int]));
            i = i + 1;
        }
        assert(self@.take(len as int) == self@);
        Style { tags }
    }
}

impl View for Style {
    type V = Seq<(Seq<char>, Seq<char>)>;

    open spec fn view(&self) -> Seq<(Seq<char>, Seq<char>)> {
        tag_entries(self.tags)
    }
}

impl Default for Style {
    fn default() -> (r: Self)
        ensures
            r@ == Seq::<(Seq<char>, Seq<char>)>::empty(),
    {
        Style { tags: tags_new() }
    }
}

impl Style {
    /// A style with no declarations.
    pub fn new() -> (r: Self)
        ensures
            r@ == Seq::<(Seq<char>, Seq<char>)>::empty(),
    {
        Style { tags: tags_new() }
    }

    /// Reads the declarations of `style`, `name:value` separated by `;`,
    /// and sets each whose trimmed name and value are both non-empty.
    #[inline]
    pub fn parse(&mut self, style: &str)
        ensures
            final(self)@ == parsed_from(old(self)@, style@, 0),
    {
        let mut chars: Vec<char> = Vec::new();
        for c in it: style.chars()
            invariant
                chars@ == it.seq().take(it.index() as int),
        {
            chars.push(c);
        }
        assert(chars@ == style@);
        let n = chars.len();
        let mut start: usize = 0;
        loop
            invariant
                start <= n == chars@.len(),
                chars@ == style@,
                parsed_from(old(self)@, style@, 0) == parsed_from(self@, style@, start as int),
            decreases n - start,
        {
            let end = find_sep(&chars, ';', start, n);
            let colon = find_sep(&chars, ':', start, end);
            let name = trim_range(&chars, start, colon);
            let value = if colon < end {
                let next = find_sep(&chars, ':', colon + 1, end);
                trim_range(&chars, colon + 1, next)
            } else {
                (0, 0)
            };
            if name.0 < name.1 && value.0 < value.1 {
                let name_text = style.substring_char(name.0, name.1);
                let value_text = style.substring_char(value.0, value.1);
                self.set(name_text, value_text);
            }
            if end >= n {
                return ;
            }
            start = end + 1;
        }
    }

    /// Sets `name` to `value`: the first declaration of that name takes the
    /// value, and without one the declaration is appended.
    #[inline]
    pub fn set(&mut self, name: &str, value: &str)
        ensures
            final(self)@ == with_declaration(old(self)@, name@, value@),
    {
        let owned = name.to_owned();
        let len = tags_len(&self.tags);
        let mut i: usize = 0;
        while i < len
            invariant
                len == self@.len(),
                self@ == old(self)@,
                owned@ == name@,
                i <= len,
                first_named(self@, name@, 0) == first_named(self@, name@, i as int),
            decreases len - i,
        {
            let tag = tags_get(&self.tags, i);
            if tag.name == owned {
                assert(first_named(self@, name@, i as int) == i);
                tags_set_value(&mut self.tags, i, value.to_owned());
                return ;
            }
            i = i + 1;
        }
        tags_push(&mut self.tags, StyleTag { name: owned, value: value.to_owned() });
    }

    /// This style with `name` set to `value`.
    #[inline]
    pub fn with(self, name: &str, value: &str) -> (r: Self)
        ensures
            r@ == with_declaration(self@, name@, value@),
    {
        let mut style = self;
        style.set(name, value);
        style
    }

    /// The declarations written out, each as `name:value;`.
    #[inline]
    pub fn to_string(&self) -> (r: String)
        ensures
            r@ == serialized(self@),
    {
        let mut out = String::new();
        let len = tags_len(&self.tags);
        let mut i: usize = 0;
        proof {
            reveal_strlit(":");
            reveal_strlit(";");
        }
        while i < len
            invariant
                len == self@.len(),
                i <= len,
                out@ == serialized(self@.take(i as int)),
                ":"@ == seq![':'],
                ";"@ == seq![';'],
            decreases len - i,
        {
            let tag = tags_get(&self.tags, i);
            out.append(tag.name.as_str());
            out.append(":");
            out.append(tag.value.as_str());
            out.append(";");
            assert(self@.take(i + 1).drop_last() == self@.take(i as int));
            i = i + 1;
        }
        assert(self@.take(len as int) == self@);
        out
    }

    /// Both styles' declarations, this style's first, without merging
    /// names.
    pub fn add(self, rhs: Style) -> (r: Style)
        ensures
            r@ == self@ + rhs@,
    {
        let mut style = self;
        tags_extend(&mut style.tags, rhs.tags);
        style
    }

    /// Whether the style has no declarations.
    pub fn is_empty(&self) -> (r: bool)
        ensures
            r == (self@.len() == 0),
    {
        tags_len(&self.tags) == 0
    }
}

impl std::ops::AddAssign<Style> for Style {
    /// Sets each declaration of `other` in turn, so that its values win.
    fn add_assign(&mut self, other: Style)
        ensures
            final(self)@ == set_all(old(self)@, other@, other@.len() as int),
    {
        let len = tags_len(&other.tags);
        let mut i: usize = 0;
        while i < len
            invariant
                len == other@.len(),
                i <= len,
                self@ == set_all(old(self)@, other@, i as int),
            decreases len - i,
        {
            let tag = tags_get(&other.tags, i);
            self.set(tag.name.as_str(), tag.value.as_str());
            i = i + 1;
        }
    }
}

/// `e` with the first `k` declarations of `d` set in turn.
pub open spec fn set_all(
    e: Seq<(Seq<char>, Seq<char>)>,
    d: Seq<(Seq<char>, Seq<char>)>,
    k: int,
) -> Seq<(Seq<char>, Seq<char>)>
    decreases k,
{
    if k <= 0 {
        e
    } else {
        with_declaration(set_all(e, d, k - 1), d[k - 1].0, d[k - 1].1)
    }
}

} // verus!
