//! The line-oriented scene description format.
//!
//! A line is blank, a comment (its first visible character is `#`), or a
//! record: a three-letter keyword followed by fields separated by white
//! space. The fields that hold real numbers are handed back as the places
//! where they stand in the line; the fields that hold counts and material
//! numbers are read here.

use vstd::prelude::*;
use vstd::slice::slice_subrange;

verus! {

/// Whether `c` is white space in the sense of Unicode's `White_Space`
/// property, which is what separates the fields of a line.
pub open spec fn is_space(c: char) -> bool {
    let u = c as u32;
    ||| 0x09 <= u <= 0x0D
    ||| u == 0x20
    ||| u == 0x85
    ||| u == 0xA0
    ||| u == 0x1680
    ||| 0x2000 <= u <= 0x200A
    ||| u == 0x2028
    ||| u == 0x2029
    ||| u == 0x202F
    ||| u == 0x205F
    ||| u == 0x3000
}

/// Whether `c` separates fields.
pub fn is_whitespace(c: char) -> (b: bool)
    ensures
        b == is_space(c),
{
    let u: u32 = c as u32;
    (0x09 <= u && u <= 0x0D) || u == 0x20 || u == 0x85 || u == 0xA0 || u == 0x1680 || (0x2000 <= u
        && u <= 0x200A) || u == 0x2028 || u == 0x2029 || u == 0x202F || u == 0x205F || u == 0x3000
}

/// Whether `c` is one of the ten decimal digits.
pub open spec fn is_digit(c: char) -> bool {
    0x30 <= c as u32 <= 0x39
}

/// The number that a decimal digit stands for.
pub open spec fn digit_value(c: char) -> nat {
    (c as u32 - 0x30) as nat
}

/// The number that a string of decimal digits denotes; 0 for the empty string.
pub open spec fn decimal_value(s: Seq<char>) -> nat
    decreases s.len(),
{
    if s.len() == 0 {
        0
    } else {
        decimal_value(s.drop_last()) * 10 + digit_value(s.last())
    }
}

/// A numeral without its optional leading `+`.
pub open spec fn unsigned_part(s: Seq<char>) -> Seq<char> {
    if s.len() > 0 && s[0] == '+' {
        s.drop_first()
    } else {
        s
    }
}

/// Whether `s` is the text of a `u32`: an optional `+`, then at least one
/// digit and nothing else, denoting a number that fits. Leading zeros are
/// allowed.
pub open spec fn is_u32_text(s: Seq<char>) -> bool {
    let d = unsigned_part(s);
    &&& d.len() > 0
    &&& forall|i: int| 0 <= i < d.len() ==> is_digit(#[trigger] d[i])
    &&& decimal_value(d) <= u32::MAX
}

/// The number that the text of a `u32` denotes.
pub open spec fn u32_value(s: Seq<char>) -> nat {
    decimal_value(unsigned_part(s))
}

/// A string of digits denotes at least what any of its prefixes denotes.
proof fn lemma_decimal_prefix(s: Seq<char>, k: int)
    requires
        0 <= k <= s.len(),
    ensures
        decimal_value(s.take(k)) <= decimal_value(s),
    decreases s.len() - k,
{
    if k == s.len() {
        assert(s.take(k) =~= s);
    } else {
        lemma_decimal_prefix(s, k + 1);
        assert(s.take(k + 1).drop_last() =~= s.take(k));
    }
}

/// Reads an unsigned integer field.
///
/// Returns the number exactly when `token` is the text of a `u32`.
pub fn parse_u32(token: &[char]) -> (r: Option<u32>)
    ensures
        r is Some <==> is_u32_text(token@),
        r is Some ==> r->0 == u32_value(token@),
{
    let n: usize = token.len();
    let first: usize = if n > 0 && token[0] == '+' {
        1
    } else {
        0
    };
    if first == n {
        return None;
    }
    let ghost d = unsigned_part(token@);
    assert(d.len() == n - first);
    assert(forall|i: int| 0 <= i < d.len() ==> d[i] == token@[i + first]);
    let mut acc: u64 = 0;
    let mut i: usize = first;
    while i < n
        invariant
            first <= i <= n,
            n == token@.len(),
            d == unsigned_part(token@),
            d.len() == n - first,
            forall|k: int| 0 <= k < d.len() ==> d[k] == token@[k + first],
            forall|k: int| 0 <= k < i - first ==> is_digit(#[trigger] d[k]),
            acc == decimal_value(d.take(i - first)),
            acc <= u32::MAX,
        decreases n - i,
    {
        let u: u32 = token[i] as u32;
        assert(token@[i as int] == d[i - first]);
        if u < 0x30 || u > 0x39 {
            assert(!is_digit(d[i - first]));
            return None;
        }
        let next: u64 = acc * 10 + (u - 0x30) as u64;
        proof {
            assert(d.take(i - first + 1).drop_last() =~= d.take(i - first));
            assert(d.take(i - first + 1).last() == d[i - first]);
            assert(next == decimal_value(d.take(i - first + 1)));
            lemma_decimal_prefix(d, i - first + 1);
        }
        if next > 0xFFFF_FFFF {
            return None;
        }
        acc = next;
        i += 1;
    }
    assert(d.take(n - first) =~= d);
    Some(acc as u32)
}

/// The place of one field in a line: the characters from `start` up to,
/// but not including, `end`.
#[derive(Clone, Copy, Debug, PartialEq, Eq, Structural)]
pub struct Span {
    pub start: usize,
    pub end: usize,
}

/// Where the run of visible characters that begins at `i` ends.
pub open spec fn run_end(s: Seq<char>, i: int) -> int
    decreases s.len() - i,
{
    if 0 <= i < s.len() && !is_space(s[i]) {
        run_end(s, i + 1)
    } else {
        i
    }
}

/// The fields of `s` that begin at or after `i`, in order.
pub open spec fn fields_from(s: Seq<char>, i: int) -> Seq<Span>
    decreases s.len() - i,
{
    if i < 0 || i >= s.len() {
        Seq::empty()
    } else if is_space(s[i]) {
        fields_from(s, i + 1)
    } else if !(i < run_end(s, i) <= s.len()) {
        Seq::empty()
    } else {
        seq![Span { start: i as usize, end: run_end(s, i) as usize }] + fields_from(
            s,
            run_end(s, i),
        )
    }
}

/// The fields of a line: its maximal runs of characters that are not white
/// space, from left to right.
pub open spec fn fields(s: Seq<char>) -> Seq<Span> {
    fields_from(s, 0)
}

/// The characters of one field.
pub open spec fn field_text(s: Seq<char>, f: Span) -> Seq<char> {
    s.subrange(f.start as int, f.end as int)
}

/// A run that begins on a visible character ends after it, inside the
/// line, with visible characters all the way and white space or the end of
/// the line behind it.
pub proof fn lemma_run_end(s: Seq<char>, i: int)
    requires
        0 <= i < s.len(),
        !is_space(s[i]),
    ensures
        i < run_end(s, i) <= s.len(),
        forall|k: int| i <= k < run_end(s, i) ==> !is_space(#[trigger] s[k]),
        run_end(s, i) == s.len() || is_space(s[run_end(s, i)]),
    decreases s.len() - i,
{
    if i + 1 < s.len() && !is_space(s[i + 1]) {
        lemma_run_end(s, i + 1);
    } else {
        assert(run_end(s, i + 1) == i + 1);
    }
}

/// Every field is a maximal run of visible characters, the fields follow
/// one another from left to right with white space between them, and no
/// visible character at or after `i` lies outside them.
pub proof fn lemma_fields_from(s: Seq<char>, i: int)
    requires
        s.len() <= usize::MAX,
        0 <= i <= s.len(),
        i == 0 || i == s.len() || is_space(s[i - 1]),
    ensures
        forall|k: int|
            #![trigger fields_from(s, i)[k]]
            0 <= k < fields_from(s, i).len() ==> {
                let f = fields_from(s, i)[k];
                &&& i <= f.start < f.end <= s.len()
                &&& (f.start == 0 || is_space(s[f.start - 1]))
                &&& (f.end == s.len() || is_space(s[f.end as int]))
                &&& forall|j: int| f.start <= j < f.end ==> !is_space(#[trigger] s[j])
            },
        forall|k: int|
            #![trigger fields_from(s, i)[k]]
            0 <= k < fields_from(s, i).len() - 1 ==> fields_from(s, i)[k].end < fields_from(
                s,
                i,
            )[k + 1].start,
        forall|j: int|
            i <= j < s.len() && !is_space(#[trigger] s[j]) ==> exists|k: int|
                #![trigger fields_from(s, i)[k]]
                0 <= k < fields_from(s, i).len() && fields_from(s, i)[k].start <= j
                    < fields_from(s, i)[k].end,
    decreases s.len() - i,
{
    if i >= s.len() {
    } else if is_space(s[i]) {
        lemma_fields_from(s, i + 1);
        assert(fields_from(s, i) == fields_from(s, i + 1));
    } else {
        lemma_run_end(s, i);
        let e = run_end(s, i);
        let head = seq![Span { start: i as usize, end: e as usize }];
        let rest = fields_from(s, e);
        let all = fields_from(s, i);
        assert(all == head + rest);
        if e < s.len() {
            lemma_fields_from(s, e + 1);
            assert(rest == fields_from(s, e + 1));
        } else {
            assert(rest.len() == 0);
        }
        assert(all[0] == head[0]);
        assert forall|k: int| 1 <= k < all.len() implies all[k] == rest[k - 1] by {}
        assert forall|k: int| #![trigger all[k]] 0 <= k < all.len() implies {
            let f = all[k];
            &&& i <= f.start < f.end <= s.len()
            &&& (f.start == 0 || is_space(s[f.start - 1]))
            &&& (f.end == s.len() || is_space(s[f.end as int]))
            &&& forall|j: int| f.start <= j < f.end ==> !is_space(#[trigger] s[j])
        } by {
            if k > 0 {
                assert(all[k] == rest[k - 1]);
            }
        }
        assert forall|k: int| #![trigger all[k]] 0 <= k < all.len() - 1 implies all[k].end
            < all[k + 1].start by {
            assert(all[k + 1] == rest[k]);
            if k > 0 {
                assert(all[k] == rest[k - 1]);
            }
        }
        assert forall|j: int| i <= j < s.len() && !is_space(#[trigger] s[j]) implies exists|
            k: int,
        |
            #![trigger all[k]]
            0 <= k < all.len() && all[k].start <= j < all[k].end by {
            if j < e {
                assert(all[0].start <= j < all[0].end);
            } else {
                let k0 = choose|k: int|
                    #![trigger rest[k]]
                    0 <= k < rest.len() && rest[k].start <= j < rest[k].end;
                assert(all[k0 + 1] == rest[k0]);
            }
        }
    }
}

/// Splits a line into its fields.
pub fn split_whitespace(line: &[char]) -> (spans: Vec<Span>)
    ensures
        spans@ == fields(line@),
{
    let n: usize = line.len();
    let mut spans: Vec<Span> = Vec::new();
    let mut i: usize = 0;
    while i < n
        invariant
            i <= n,
            n == line@.len(),
            spans@ + fields_from(line@, i as int) == fields(line@),
        decreases n - i,
    {
        if is_whitespace(line[i]) {
            i += 1;
        } else {
            let start: usize = i;
            proof {
                lemma_run_end(line@, start as int);
            }
            while i < n && !is_whitespace(line[i])
                invariant
                    start <= i <= n,
                    n == line@.len(),
                    run_end(line@, i as int) == run_end(line@, start as int),
                decreases n - i,
            {
                i += 1;
            }
            let ghost before = spans@;
            spans.push(Span { start, end: i });
            assert(spans@ + fields_from(line@, i as int) =~= before + fields_from(
                line@,
                start as int,
            ));
        }
    }
    assert(spans@ + fields_from(line@, n as int) =~= spans@);
    spans
}

/// The kinds of record that a scene description holds.
#[derive(Clone, Copy, Debug, PartialEq, Eq, Structural)]
pub enum RecordKind {
    /// `cam`: position, look-at point, up vector, screen distance, screen width.
    Camera,
    /// `set`: background colour, then the number of shadow rays per axis,
    /// the recursion limit and the number of samples per pixel and axis.
    Settings,
    /// `mtl`: diffuse, specular and reflection colour, Phong exponent, transparency.
    Material,
    /// `sph`: centre, radius, then the material's number.
    Sphere,
    /// `pln`: normal, offset, then the material's number.
    Plane,
    /// `trg`: three vertices, then the material's number.
    Triangle,
    /// `lgt`: position, colour, specular intensity, shadow intensity, radius.
    Light,
}

/// Why a line was rejected.
#[derive(Clone, Copy, Debug, PartialEq, Eq, Structural)]
pub enum FormatError {
    /// The line's first field is none of the seven keywords.
    UnknownKeyword,
    /// The record has fewer fields than its kind asks for.
    MissingField,
    /// A field that must hold an unsigned integer does not.
    BadInteger,
    /// An object names a material that has not been declared above it;
    /// materials are numbered from 1 in the order of their records.
    BadMaterialIndex,
}

/// One record of a scene description.
#[derive(Debug)]
pub struct Record {
    pub kind: RecordKind,
    /// Where the record's real-valued fields stand in its line, in order.
    pub reals: Vec<Span>,
    /// The record's integer fields, in order.
    pub ints: Vec<u32>,
}

/// What a record holds, as mathematical sequences.
pub struct RecordModel {
    pub kind: RecordKind,
    pub reals: Seq<Span>,
    pub ints: Seq<u32>,
}

impl View for Record {
    type V = RecordModel;

    open spec fn view(&self) -> RecordModel {
        RecordModel { kind: self.kind, reals: self.reals@, ints: self.ints@ }
    }
}

/// Whether `t` is the three-letter word `a b c`.
pub open spec fn spells(t: Seq<char>, a: char, b: char, c: char) -> bool {
    t.len() == 3 && t[0] == a && t[1] == b && t[2] == c
}

/// The kind of record that the keyword `t` announces, if it is a keyword.
pub open spec fn keyword(t: Seq<char>) -> Option<RecordKind> {
    if spells(t, 'c', 'a', 'm') {
        Some(RecordKind::Camera)
    } else if spells(t, 's', 'e', 't') {
        Some(RecordKind::Settings)
    } else if spells(t, 'm', 't', 'l') {
        Some(RecordKind::Material)
    } else if spells(t, 's', 'p', 'h') {
        Some(RecordKind::Sphere)
    } else if spells(t, 'p', 'l', 'n') {
        Some(RecordKind::Plane)
    } else if spells(t, 't', 'r', 'g') {
        Some(RecordKind::Triangle)
    } else if spells(t, 'l', 'g', 't') {
        Some(RecordKind::Light)
    } else {
        None
    }
}

impl RecordKind {
    /// How many real-valued fields a record of this kind begins with.
    pub open spec fn real_fields(self) -> nat {
        match self {
            RecordKind::Camera => 11,
            RecordKind::Settings => 3,
            RecordKind::Material => 11,
            RecordKind::Sphere => 4,
            RecordKind::Plane => 4,
            RecordKind::Triangle => 9,
            RecordKind::Light => 9,
        }
    }

    /// How many integer fields follow them.
    pub open spec fn int_fields(self) -> nat {
        match self {
            RecordKind::Settings => 3,
            RecordKind::Sphere | RecordKind::Plane | RecordKind::Triangle => 1,
            _ => 0,
        }
    }

    /// Whether the record's integer field is the number of a material.
    pub open spec fn names_material(self) -> bool {
        self is Sphere || self is Plane || self is Triangle
    }

    /// The number of real-valued fields of a record of this kind.
    pub fn real_field_count(self) -> (n: usize)
        ensures
            n == self.real_fields(),
    {
        match self {
            RecordKind::Camera => 11,
            RecordKind::Settings => 3,
            RecordKind::Material => 11,
            RecordKind::Sphere => 4,
            RecordKind::Plane => 4,
            RecordKind::Triangle => 9,
            RecordKind::Light => 9,
        }
    }

    /// The number of integer fields of a record of this kind.
    pub fn int_field_count(self) -> (n: usize)
        ensures
            n == self.int_fields(),
    {
        match self {
            RecordKind::Settings => 3,
            RecordKind::Sphere | RecordKind::Plane | RecordKind::Triangle => 1,
            _ => 0,
        }
    }

    /// Whether a record of this kind refers to a material.
    pub fn refers_to_material(self) -> (b: bool)
        ensures
            b == self.names_material(),
    {
        match self {
            RecordKind::Sphere | RecordKind::Plane | RecordKind::Triangle => true,
            _ => false,
        }
    }
}

/// What a line means when `materials` materials have been declared above it.
///
/// Blank lines and comments mean nothing. A record needs a known keyword
/// and at least as many fields as its kind asks for; fields beyond those
/// are ignored. Its integer fields must be texts of a `u32`, and the number
/// of a material must lie between 1 and `materials`.
pub open spec fn line_outcome(s: Seq<char>, materials: nat) -> Result<
    Option<RecordModel>,
    FormatError,
> {
    let f = fields(s);
    if f.len() == 0 || s[f[0].start as int] == '#' {
        Ok(None)
    } else {
        match keyword(field_text(s, f[0])) {
            None => Err(FormatError::UnknownKeyword),
            Some(kind) => {
                let r = kind.real_fields() as int;
                let n = kind.int_fields() as int;
                if f.len() < 1 + r + n {
                    Err(FormatError::MissingField)
                } else if exists|k: int|
                    0 <= k < n && !is_u32_text(#[trigger] field_text(s, f[1 + r + k])) {
                    Err(FormatError::BadInteger)
                } else if kind.names_material() && !(1 <= u32_value(field_text(s, f[1 + r]))
                    <= materials) {
                    Err(FormatError::BadMaterialIndex)
                } else {
                    Ok(
                        Some(
                            RecordModel {
                                kind,
                                reals: f.subrange(1, 1 + r),
                                ints: Seq::new(
                                    n as nat,
                                    |k: int| u32_value(field_text(s, f[1 + r + k])) as u32,
                                ),
                            },
                        ),
                    )
                }
            },
        }
    }
}

/// Recognises the keyword that stands at `at` in `line`.
fn keyword_at(line: &[char], at: Span) -> (k: Option<RecordKind>)
    requires
        at.start <= at.end <= line@.len(),
    ensures
        k == keyword(field_text(line@, at)),
{
    if at.end - at.start != 3 {
        return None;
    }
    let a: char = line[at.start];
    let b: char = line[at.start + 1];
    let c: char = line[at.start + 2];
    let ghost t = field_text(line@, at);
    assert(t.len() == 3 && t[0] == a && t[1] == b && t[2] == c);
    if a == 'c' && b == 'a' && c == 'm' {
        Some(RecordKind::Camera)
    } else if a == 's' && b == 'e' && c == 't' {
        Some(RecordKind::Settings)
    } else if a == 'm' && b == 't' && c == 'l' {
        Some(RecordKind::Material)
    } else if a == 's' && b == 'p' && c == 'h' {
        Some(RecordKind::Sphere)
    } else if a == 'p' && b == 'l' && c == 'n' {
        Some(RecordKind::Plane)
    } else if a == 't' && b == 'r' && c == 'g' {
        Some(RecordKind::Triangle)
    } else if a == 'l' && b == 'g' && c == 't' {
        Some(RecordKind::Light)
    } else {
        None
    }
}

/// Every field lies inside its line and is not empty.
pub proof fn lemma_fields_within(s: Seq<char>)
    requires
        s.len() <= usize::MAX,
    ensures
        forall|k: int|
            #![trigger fields(s)[k]]
            0 <= k < fields(s).len() ==> fields(s)[k].start < fields(s)[k].end <= s.len(),
{
    lemma_fields_from(s, 0);
}

/// The integers that the `n` fields from `spans[from]` on denote.
pub open spec fn integers_at(s: Seq<char>, spans: Seq<Span>, from: int, n: nat) -> Seq<u32> {
    Seq::new(n, |k: int| u32_value(field_text(s, spans[from + k])) as u32)
}

/// Reads the `n` integer fields that begin with `spans[from]`, if all of
/// them hold integers.
fn read_integers(line: &[char], spans: &Vec<Span>, from: usize, n: usize) -> (r: Option<Vec<u32>>)
    requires
        from + n <= spans@.len(),
        forall|k: int|
            #![trigger spans@[k]]
            0 <= k < spans@.len() ==> spans@[k].start <= spans@[k].end <= line@.len(),
    ensures
        r is Some <==> forall|k: int|
            0 <= k < n ==> is_u32_text(#[trigger] field_text(line@, spans@[from + k])),
        r is Some ==> r->0@ == integers_at(line@, spans@, from as int, n as nat),
{
    let total: usize = spans.len();
    let mut ints: Vec<u32> = Vec::new();
    let mut k: usize = 0;
    while k < n
        invariant
            k <= n,
            total == spans@.len(),
            from + n <= spans@.len(),
            forall|j: int|
                #![trigger spans@[j]]
                0 <= j < spans@.len() ==> spans@[j].start <= spans@[j].end <= line@.len(),
            ints@.len() == k,
            forall|j: int|
                0 <= j < k ==> is_u32_text(#[trigger] field_text(line@, spans@[from + j])),
            forall|j: int|
                0 <= j < k ==> (#[trigger] ints@[j]) == u32_value(
                    field_text(line@, spans@[from + j]),
                ),
        decreases n - k,
    {
        let at: Span = spans[from + k];
        let token = slice_subrange(line, at.start, at.end);
        match parse_u32(token) {
            None => {
                assert(!is_u32_text(field_text(line@, spans@[from + k])));
                return None;
            },
            Some(v) => {
                ints.push(v);
            },
        }
        k += 1;
    }
    assert(ints@ =~= integers_at(line@, spans@, from as int, n as nat));
    Some(ints)
}

/// The `n` places that begin with `spans[from]`.
fn copy_spans(spans: &Vec<Span>, from: usize, n: usize) -> (out: Vec<Span>)
    requires
        from + n <= spans@.len(),
    ensures
        out@ == spans@.subrange(from as int, from + n),
{
    let total: usize = spans.len();
    let mut out: Vec<Span> = Vec::new();
    let mut k: usize = 0;
    while k < n
        invariant
            k <= n,
            total == spans@.len(),
            from + n <= spans@.len(),
            out@ == spans@.subrange(from as int, from + k),
        decreases n - k,
    {
        out.push(spans[from + k]);
        assert(out@ =~= spans@.subrange(from as int, from + k + 1));
        k += 1;
    }
    out
}

/// Reads one line of a scene description, `materials` materials having
/// been declared above it.
pub fn parse_line(line: &[char], materials: usize) -> (r: Result<Option<Record>, FormatError>)
    ensures
        match r {
            Ok(Some(record)) => line_outcome(line@, materials as nat) == Ok::<
                Option<RecordModel>,
                FormatError,
            >(Some(record@)),
            Ok(None) => line_outcome(line@, materials as nat) == Ok::<
                Option<RecordModel>,
                FormatError,
            >(None),
            Err(e) => line_outcome(line@, materials as nat) == Err::<
                Option<RecordModel>,
                FormatError,
            >(e),
        },
{
    if line.len() == 0 {
        return Ok(None);
    }
    let spans = split_whitespace(line);
    proof {
        lemma_fields_within(line@);
    }
    if spans.len() == 0 {
        return Ok(None);
    }
    let head: Span = spans[0];
    if line[head.start] == '#' {
        return Ok(None);
    }
    let kind = match keyword_at(line, head) {
        None => {
            return Err(FormatError::UnknownKeyword);
        },
        Some(kind) => kind,
    };
    let r: usize = kind.real_field_count();
    let n: usize = kind.int_field_count();
    if spans.len() < 1 + r + n {
        return Err(FormatError::MissingField);
    }
    let ints = match read_integers(line, &spans, 1 + r, n) {
        None => {
            return Err(FormatError::BadInteger);
        },
        Some(ints) => ints,
    };
    if kind.refers_to_material() {
        let number: u32 = ints[0];
        assert(number == u32_value(field_text(line@, spans@[1 + r])));
        if number < 1 || number as usize > materials {
            return Err(FormatError::BadMaterialIndex);
        }
    }
    let reals = copy_spans(&spans, 1, r);
    let record = Record { kind, reals, ints };
    proof {
        let want = Seq::new(
            n as nat,
            |k: int| u32_value(field_text(line@, fields(line@)[1 + r + k])) as u32,
        );
        assert(record@.ints =~= want);
    }
    Ok(Some(record))
}

/// A record together with the number of the line it stands on, counted from 0.
#[derive(Debug)]
pub struct Entry {
    pub line: usize,
    pub record: Record,
}

/// What an entry holds, as mathematical values.
pub struct EntryModel {
    pub line: int,
    pub record: RecordModel,
}

impl View for Entry {
    type V = EntryModel;

    open spec fn view(&self) -> EntryModel {
        EntryModel { line: self.line as int, record: self.record@ }
    }
}

/// Why a scene description was rejected.
#[derive(Clone, Copy, Debug, PartialEq, Eq, Structural)]
pub enum LoadError {
    /// The line with this number, counted from 0, was rejected.
    Line { line: usize, error: FormatError },
    /// No line holds a `cam` record.
    MissingCamera,
    /// No line holds a `set` record.
    MissingSettings,
}

/// The records of a scene description.
#[derive(Debug)]
pub struct SceneOutline {
    /// All records, in the order of their lines.
    pub entries: Vec<Entry>,
    /// Which entry is the camera: the last `cam` record.
    pub camera: usize,
    /// Which entry holds the settings: the last `set` record.
    pub settings: usize,
}

/// What has been gathered from the lines read so far.
pub struct Digest {
    pub entries: Seq<EntryModel>,
    pub materials: nat,
    pub camera: Option<int>,
    pub settings: Option<int>,
}

/// The texts of the lines.
pub open spec fn texts(lines: Seq<Vec<char>>) -> Seq<Seq<char>> {
    Seq::new(lines.len(), |i: int| lines[i]@)
}

/// What `entries` are as mathematical values.
pub open spec fn models(entries: Seq<Entry>) -> Seq<EntryModel> {
    Seq::new(entries.len(), |i: int| entries[i]@)
}

/// What one more record adds to what has been gathered.
pub open spec fn digest_with(d: Digest, line: int, record: RecordModel) -> Digest {
    Digest {
        entries: d.entries.push(EntryModel { line, record }),
        materials: if record.kind is Material {
            d.materials + 1
        } else {
            d.materials
        },
        camera: if record.kind is Camera {
            Some(d.entries.len() as int)
        } else {
            d.camera
        },
        settings: if record.kind is Settings {
            Some(d.entries.len() as int)
        } else {
            d.settings
        },
    }
}

/// What the first `n` lines hold, or the first of them that is rejected
/// and why. Each line is read with the number of materials that the
/// records above it declare.
pub open spec fn digest(lines: Seq<Seq<char>>, n: int) -> Result<Digest, (int, FormatError)>
    decreases n,
{
    if n <= 0 {
        Ok(Digest { entries: Seq::empty(), materials: 0, camera: None, settings: None })
    } else {
        match digest(lines, n - 1) {
            Err(e) => Err(e),
            Ok(d) => match line_outcome(lines[n - 1], d.materials) {
                Err(e) => Err((n - 1, e)),
                Ok(None) => Ok(d),
                Ok(Some(record)) => Ok(digest_with(d, n - 1, record)),
            },
        }
    }
}

/// Reads a scene description, given as its lines.
///
/// A description is accepted when each of its lines is, and a camera and
/// settings are among its records. The outline then lists the records in
/// the order of their lines and says which of them are the camera and the
/// settings; where several lines give one, the last counts.
pub fn read_scene(lines: &Vec<Vec<char>>) -> (r: Result<SceneOutline, LoadError>)
    ensures
        match digest(texts(lines@), lines@.len() as int) {
            Err((line, error)) => r == Err::<SceneOutline, LoadError>(
                LoadError::Line { line: line as usize, error },
            ),
            Ok(d) => if d.camera is None {
                r == Err::<SceneOutline, LoadError>(LoadError::MissingCamera)
            } else if d.settings is None {
                r == Err::<SceneOutline, LoadError>(LoadError::MissingSettings)
            } else {
                &&& r is Ok
                &&& models(r->Ok_0.entries@) == d.entries
                &&& r->Ok_0.camera == d.camera->0
                &&& r->Ok_0.settings == d.settings->0
            },
        },
{
    let n: usize = lines.len();
    let ghost text = texts(lines@);
    let mut entries: Vec<Entry> = Vec::new();
    let mut materials: usize = 0;
    let mut camera: Option<usize> = None;
    let mut settings: Option<usize> = None;
    let mut i: usize = 0;
    assert(models(entries@) =~= Seq::<EntryModel>::empty());
    while i < n
        invariant
            i <= n,
            n == lines@.len(),
            text == texts(lines@),
            materials <= i,
            entries@.len() <= i,
            digest(text, i as int) == Ok::<Digest, (int, FormatError)>(
                Digest {
                    entries: models(entries@),
                    materials: materials as nat,
                    camera: match camera {
                        Some(c) => Some(c as int),
                        None => None,
                    },
                    settings: match settings {
                        Some(c) => Some(c as int),
                        None => None,
                    },
                },
            ),
        decreases n - i,
    {
        assert(text[i as int] == lines@[i as int]@);
        let ghost before = digest(text, i as int)->Ok_0;
        match parse_line(lines[i].as_slice(), materials) {
            Err(error) => {
                proof {
                    lemma_digest_fails(text, i + 1, n as int);
                }
                return Err(LoadError::Line { line: i, error });
            },
            Ok(None) => {},
            Ok(Some(record)) => {
                let at: usize = entries.len();
                match record.kind {
                    RecordKind::Material => {
                        materials += 1;
                    },
                    RecordKind::Camera => {
                        camera = Some(at);
                    },
                    RecordKind::Settings => {
                        settings = Some(at);
                    },
                    _ => {},
                }
                let ghost shown = record@;
                entries.push(Entry { line: i, record });
                assert(models(entries@) =~= before.entries.push(
                    EntryModel { line: i as int, record: shown },
                ));
            },
        }
        i += 1;
    }
    match (camera, settings) {
        (None, _) => Err(LoadError::MissingCamera),
        (Some(_), None) => Err(LoadError::MissingSettings),
        (Some(camera), Some(settings)) => Ok(SceneOutline { entries, camera, settings }),
    }
}

/// How many of the first `k` entries declare a material.
pub open spec fn materials_among(entries: Seq<EntryModel>, k: int) -> nat
    decreases k,
{
    if k <= 0 {
        0
    } else {
        materials_among(entries, k - 1) + if entries[k - 1].record.kind is Material {
            1nat
        } else {
            0nat
        }
    }
}

/// Whether the entry with number `k` has the fields that its kind asks
/// for, and, if it is an object, names a material that an entry above it
/// declares.
pub open spec fn is_sound(entries: Seq<EntryModel>, k: int) -> bool {
    let r = entries[k].record;
    &&& r.reals.len() == r.kind.real_fields()
    &&& r.ints.len() == r.kind.int_fields()
    &&& r.kind.names_material() ==> 1 <= r.ints[0] <= materials_among(entries, k)
}

/// The materials among the first entries are not changed by what follows.
proof fn lemma_materials_among_push(entries: Seq<EntryModel>, e: EntryModel, k: int)
    requires
        0 <= k <= entries.len(),
    ensures
        materials_among(entries.push(e), k) == materials_among(entries, k),
    decreases k,
{
    if k > 0 {
        lemma_materials_among_push(entries, e, k - 1);
        assert(entries.push(e)[k - 1] == entries[k - 1]);
    }
}

/// What is accepted is sound: every entry has the fields that its kind
/// asks for, every object names a material declared above it, and the
/// camera and the settings are where the digest says.
pub proof fn accepted_entries_are_sound(lines: Seq<Seq<char>>, n: int)
    requires
        digest(lines, n) is Ok,
    ensures
        ({
            let d = digest(lines, n)->Ok_0;
            &&& d.materials == materials_among(d.entries, d.entries.len() as int)
            &&& forall|k: int| 0 <= k < d.entries.len() ==> is_sound(d.entries, k)
            &&& d.camera is Some ==> 0 <= d.camera->0 < d.entries.len()
                && d.entries[d.camera->0].record.kind is Camera
            &&& d.settings is Some ==> 0 <= d.settings->0 < d.entries.len()
                && d.entries[d.settings->0].record.kind is Settings
        }),
    decreases n,
{
    if n > 0 {
        accepted_entries_are_sound(lines, n - 1);
        let before = digest(lines, n - 1)->Ok_0;
        match line_outcome(lines[n - 1], before.materials) {
            Ok(Some(record)) => {
                let e = EntryModel { line: n - 1, record };
                let d = digest_with(before, n - 1, record);
                let len = before.entries.len() as int;
                assert(d.entries == before.entries.push(e));
                assert forall|k: int| 0 <= k <= len implies materials_among(d.entries, k)
                    == materials_among(before.entries, k) by {
                    lemma_materials_among_push(before.entries, e, k);
                }
                assert(materials_among(d.entries, len + 1) == materials_among(d.entries, len)
                    + if record.kind is Material {
                    1nat
                } else {
                    0nat
                });
                assert forall|k: int| 0 <= k < d.entries.len() implies is_sound(d.entries, k) by {
                    if k < len {
                        assert(d.entries[k] == before.entries[k]);
                        assert(is_sound(before.entries, k));
                    } else {
                        assert(d.entries[k].record == record);
                    }
                }
            },
            _ => {},
        }
    }
}

/// Once a line has been rejected, reading further lines changes nothing.
proof fn lemma_digest_fails(lines: Seq<Seq<char>>, k: int, n: int)
    requires
        0 <= k <= n,
        digest(lines, k) is Err,
    ensures
        digest(lines, n) == digest(lines, k),
    decreases n - k,
{
    if k < n {
        lemma_digest_fails(lines, k, n - 1);
    }
}

} // verus!
