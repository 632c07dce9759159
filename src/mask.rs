use vstd::prelude::*;
use vstd::string::*;
use crate::text::{lower_of, split, split_str, str_eq, to_lower, trim, trim_str};

verus! {

broadcast use vstd::string::group_string_axioms;

/// What a mask is: either everything, or a list of lower-case path tokens.
pub ghost struct MaskView {
    pub include_all: bool,
    pub tokens: Seq<Seq<char>>,
}

/// The tokens that a comma-separated expression asks for: each piece trimmed and
/// lower-cased, empty ones dropped.
pub open spec fn mask_tokens(pieces: Seq<Seq<char>>) -> Seq<Seq<char>>
    decreases pieces.len(),
{
    if pieces.len() == 0 {
        Seq::empty()
    } else {
        let rest = mask_tokens(pieces.drop_last());
        let t = lower_of(trim(pieces.last()));
        if t.len() == 0 {
            rest
        } else {
            rest.push(t)
        }
    }
}

/// Whether `i` is the position of the first `c` in `s`.
pub open spec fn first_at(s: Seq<char>, c: char, i: int) -> bool {
    0 <= i < s.len() && s[i] == c && forall|k: int| 0 <= k < i ==> s[k] != c
}

pub open spec fn has_token(m: MaskView, t: Seq<char>) -> bool {
    exists|j: int| 0 <= j < m.tokens.len() && m.tokens[j] == t
}

/// Whether some token is `p` followed by a dot and more.
pub open spec fn has_child_token(m: MaskView, p: Seq<char>) -> bool {
    exists|j: int|
        0 <= j < m.tokens.len() && p.len() < m.tokens[j].len() && #[trigger] m.tokens[j].take(
            p.len() as int,
        ) == p && m.tokens[j][p.len() as int] == '.'
}

/// Whether a mask lets the (lower-case) path `p` through: everything; the path
/// itself; its section, the part before the first dot; or a sub-path of it.
pub open spec fn admits(m: MaskView, p: Seq<char>) -> bool {
    ||| m.include_all
    ||| has_token(m, p)
    ||| exists|i: int| first_at(p, '.', i) && has_token(m, #[trigger] p.take(i))
    ||| has_child_token(m, p)
}

/// Whether every piece is blank once trimmed.
pub open spec fn all_blank(pieces: Seq<Seq<char>>) -> bool {
    forall|k: int| 0 <= k < pieces.len() ==> trim(#[trigger] pieces[k]).len() == 0
}

/// A projection filter that selects the sections or sub-paths of a frame to emit.
#[derive(Debug)]
pub struct FieldMask {
    fields: Vec<String>,
    include_all: bool,
}

impl View for FieldMask {
    type V = MaskView;

    closed spec fn view(&self) -> MaskView {
        MaskView { include_all: self.include_all, tokens: self.fields@.map_values(|f: String| f@) }
    }
}

/// Whether the token at `j` of `fields` is `p` followed by a dot.
fn child_at(f: &str, p: &str, pn: usize) -> (r: bool)
    requires
        pn == p@.len(),
    ensures
        r == (p@.len() < f@.len() && f@.take(p@.len() as int) == p@ && f@[p@.len() as int] == '.'),
{
    let fnn = f.unicode_len();
    if fnn <= pn {
        return false;
    }
    let head = f.substring_char(0, pn);
    if !str_eq(head, p) {
        return false;
    }
    f.get_char(pn) == '.'
}

impl FieldMask {
    /// A mask that lets every path through.
    pub fn all() -> (r: FieldMask)
        ensures
            r@.include_all,
            r@.tokens.len() == 0,
    {
        FieldMask { fields: Vec::new(), include_all: true }
    }

    /// A mask from a comma-separated expression: pieces are trimmed and lower-cased,
    /// and empty ones are dropped.
    pub fn parse(fields: &str) -> (r: FieldMask)
        ensures
            !r@.include_all,
            r@.tokens == mask_tokens(split(fields@, ',')),
            all_blank(split(fields@, ',')) ==> r@.tokens.len() == 0,
    {
        let pieces = split_str(fields, ',');
        let mut out: Vec<String> = Vec::new();
        let mut i: usize = 0;
        while i < pieces.len()
            invariant
                0 <= i <= pieces@.len(),
                pieces@.map_values(|p: &str| p@) == split(fields@, ','),
                out@.map_values(|f: String| f@) == mask_tokens(
                    pieces@.map_values(|p: &str| p@).take(i as int),
                ),
                all_blank(split(fields@, ',')) ==> out@.len() == 0,
            decreases pieces@.len() - i,
        {
            let ghost ps = pieces@.map_values(|p: &str| p@);
            let trimmed = trim_str(pieces[i]);
            let t = to_lower(trimmed);
            proof {
                if all_blank(split(fields@, ',')) {
                    assert(ps[i as int] == pieces@[i as int]@);
                    assert(trim(ps[i as int]).len() == 0);
                }
                assert(ps.take(i + 1).drop_last() =~= ps.take(i as int));
                assert(ps.take(i + 1).last() == pieces@[i as int]@);
            }
            if t.unicode_len() > 0 {
                out.push(t);
                proof {
                    assert(out@.map_values(|f: String| f@) =~= mask_tokens(ps.take(i as int)).push(
                        t@,
                    ));
                }
            }
            i = i + 1;
        }
        proof {
            assert(pieces@.map_values(|p: &str| p@).take(pieces@.len() as int) =~= split(
                fields@,
                ',',
            ));
        }
        FieldMask { fields: out, include_all: false }
    }

    /// Whether the path `field` passes, compared without regard to case.
    pub fn includes(&self, field: &str) -> (r: bool)
        ensures
            r == admits(self@, lower_of(field@)),
    {
        if self.include_all {
            return true;
        }
        let lowered = to_lower(field);
        self.includes_lowered(lowered.as_str())
    }

    /// Whether the lower-case path `field` passes.
    pub fn includes_lowered(&self, field: &str) -> (r: bool)
        ensures
            r == admits(self@, field@),
    {
        if self.include_all {
            return true;
        }
        let ghost m = self@;
        let ghost p = field@;
        let n = self.fields.len();
        // the path itself
        let mut j: usize = 0;
        while j < n
            invariant
                n == self.fields@.len(),
                m == self@,
                p == field@,
                forall|k: int| 0 <= k < j ==> m.tokens[k] != p,
            decreases n - j,
        {
            if str_eq(self.fields[j].as_str(), field) {
                assert(m.tokens[j as int] == p);
                return true;
            }
            j = j + 1;
        }
        assert(!has_token(m, p));
        // its section
        let pn = field.unicode_len();
        let mut d: usize = 0;
        while d < pn && field.get_char(d) != '.'
            invariant
                d <= pn,
                pn == p.len(),
                p == field@,
                forall|k: int| 0 <= k < d ==> p[k] != '.',
            decreases pn - d,
        {
            d = d + 1;
        }
        if d < pn {
            let section = field.substring_char(0, d);
            let mut j: usize = 0;
            while j < n
                invariant
                    n == self.fields@.len(),
                    m == self@,
                    section@ == p.take(d as int),
                    p == field@,
                    d < pn,
                    pn == p.len(),
                    p[d as int] == '.',
                    forall|k: int| 0 <= k < d ==> p[k] != '.',
                    forall|k: int| 0 <= k < j ==> m.tokens[k] != section@,
                decreases n - j,
            {
                if str_eq(self.fields[j].as_str(), section) {
                    assert(first_at(p, '.', d as int));
                    assert(m.tokens[j as int] == section@);
                    assert(has_token(m, p.take(d as int)));
                    return true;
                }
                j = j + 1;
            }
            assert forall|i: int| first_at(p, '.', i) implies !has_token(m, #[trigger] p.take(i)) by {
                assert(i == d);
            }
        } else {
            assert forall|i: int| first_at(p, '.', i) implies !has_token(m, #[trigger] p.take(i)) by {
                assert(p[i] == '.');
            }
        }
        // a sub-path of it
        let mut j: usize = 0;
        while j < n
            invariant
                n == self.fields@.len(),
                m == self@,
                p == field@,
                pn == p.len(),
                forall|k: int|
                    0 <= k < j ==> !(p.len() < m.tokens[k].len() && #[trigger] m.tokens[k].take(
                        p.len() as int,
                    ) == p && m.tokens[k][p.len() as int] == '.'),
            decreases n - j,
        {
            if child_at(self.fields[j].as_str(), field, pn) {
                assert(m.tokens[j as int] == self.fields@[j as int]@);
                return true;
            }
            j = j + 1;
        }
        false
    }

    /// Whether the mask lets every path through.
    pub fn is_all(&self) -> (r: bool)
        ensures
            r == self@.include_all,
    {
        self.include_all
    }
}

impl Default for FieldMask {
    fn default() -> (r: FieldMask)
        ensures
            !r@.include_all,
            r@.tokens.len() == 0,
    {
        FieldMask { fields: Vec::new(), include_all: false }
    }
}

impl std::str::FromStr for FieldMask {
    type Err = std::convert::Infallible;

    fn from_str(s: &str) -> Result<FieldMask, std::convert::Infallible> {
        Ok(FieldMask::parse(s))
    }
}

/// Builds a mask one requested path at a time.
#[derive(Debug)]
pub struct FieldMaskBuilder {
    fields: Vec<String>,
}

impl View for FieldMaskBuilder {
    type V = Seq<Seq<char>>;

    closed spec fn view(&self) -> Seq<Seq<char>> {
        self.fields@.map_values(|f: String| f@)
    }
}

impl Default for FieldMaskBuilder {
    fn default() -> (r: FieldMaskBuilder)
        ensures
            r@.len() == 0,
    {
        FieldMaskBuilder { fields: Vec::new() }
    }
}

impl FieldMaskBuilder {
    /// Adds the path `field`, lower-cased.
    pub fn with_field(self, field: &str) -> (r: FieldMaskBuilder)
        ensures
            r@ == self@.push(lower_of(field@)),
    {
        let mut fields = self.fields;
        let t = to_lower(field);
        fields.push(t);
        proof {
            assert(fields@.map_values(|f: String| f@) =~= self@.push(lower_of(field@)));
        }
        FieldMaskBuilder { fields }
    }

    pub fn motion(self) -> (r: FieldMaskBuilder)
        ensures
            r@ == self@.push(lower_of("motion"@)),
    {
        self.with_field("motion")
    }

    pub fn vehicle(self) -> (r: FieldMaskBuilder)
        ensures
            r@ == self@.push(lower_of("vehicle"@)),
    {
        self.with_field("vehicle")
    }

    pub fn engine(self) -> (r: FieldMaskBuilder)
        ensures
            r@ == self@.push(lower_of("engine"@)),
    {
        self.with_field("engine")
    }

    pub fn wheels(self) -> (r: FieldMaskBuilder)
        ensures
            r@ == self@.push(lower_of("wheels"@)),
    {
        self.with_field("wheels")
    }

    pub fn timing(self) -> (r: FieldMaskBuilder)
        ensures
            r@ == self@.push(lower_of("timing"@)),
    {
        self.with_field("timing")
    }

    pub fn session(self) -> (r: FieldMaskBuilder)
        ensures
            r@ == self@.push(lower_of("session"@)),
    {
        self.with_field("session")
    }

    pub fn weather(self) -> (r: FieldMaskBuilder)
        ensures
            r@ == self@.push(lower_of("weather"@)),
    {
        self.with_field("weather")
    }

    pub fn pit(self) -> (r: FieldMaskBuilder)
        ensures
            r@ == self@.push(lower_of("pit"@)),
    {
        self.with_field("pit")
    }

    pub fn electronics(self) -> (r: FieldMaskBuilder)
        ensures
            r@ == self@.push(lower_of("electronics"@)),
    {
        self.with_field("electronics")
    }

    pub fn damage(self) -> (r: FieldMaskBuilder)
        ensures
            r@ == self@.push(lower_of("damage"@)),
    {
        self.with_field("damage")
    }

    pub fn competitors(self) -> (r: FieldMaskBuilder)
        ensures
            r@ == self@.push(lower_of("competitors"@)),
    {
        self.with_field("competitors")
    }

    pub fn driver(self) -> (r: FieldMaskBuilder)
        ensures
            r@ == self@.push(lower_of("driver"@)),
    {
        self.with_field("driver")
    }

    /// The mask of the paths added so far.
    pub fn build(self) -> (r: FieldMask)
        ensures
            !r@.include_all,
            r@.tokens == self@,
    {
        FieldMask { fields: self.fields, include_all: false }
    }
}

} // verus!
