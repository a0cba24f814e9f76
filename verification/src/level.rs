//! The level file format: plain text, one object per line,
//! `Planet <x> <y> <radius>`.
//!
//! A line is trimmed of ASCII whitespace and split on single spaces; it
//! must then hold exactly the keyword and three decimal numbers. A number
//! is an optional sign, at most twelve integer digits and, after an
//! optional point, at most six fraction digits; its value lands on the
//! fixed-point grid by truncation toward zero, saturated into range.
//! A malformed line is a hard error naming the first bad line — a level
//! either loads whole or not at all. Planet mass is derived from the
//! radius as `radius^3` when the parsed level is spawned.

use vstd::prelude::*;

use crate::fixed::{clip, fx_ok, lemma_clip_ok, tdiv, SCALE};
use crate::planet::{planet_mass_spec, planets_ok, Planet};
use crate::text::{lemma_split_nonempty, split_bytes, split_spec, trim_bytes, trim_spec};
use crate::vec2::{v_ok, Vec2};

verus! {

/// One parsed level object; coordinates and radius are fixed-point.
#[derive(Clone, Copy, Debug, PartialEq, Eq, Structural)]
pub enum LevelAssetObject {
    Planet { x: i64, y: i64, radius: i64 },
}

/// A parsed level: the objects, in file order.
#[derive(Debug)]
pub struct LevelAsset {
    pub objects: Vec<LevelAssetObject>,
}

/// A rejected level: the first line that is not a well-formed object.
#[derive(Clone, Copy, Debug, PartialEq, Eq, Structural)]
pub struct LevelParseError {
    pub line: usize,
}

/// An ASCII decimal digit.
pub open spec fn is_digit(c: u8) -> bool {
    48 <= c <= 57
}

pub open spec fn all_digits(s: Seq<u8>) -> bool {
    forall|i: int| 0 <= i < s.len() ==> is_digit(#[trigger] s[i])
}

/// The value of a digit string, most significant first.
pub open spec fn digits_val(s: Seq<u8>) -> int
    decreases s.len(),
{
    if s.len() == 0 {
        0
    } else {
        digits_val(s.drop_last()) * 10 + (s.last() - 48)
    }
}

pub open spec fn pow10(n: nat) -> int
    decreases n,
{
    if n == 0 {
        1
    } else {
        10 * pow10((n - 1) as nat)
    }
}

/// Most integer digits a number may carry.
pub const MAX_INT_DIGITS: usize = 12;

/// Most fraction digits a number may carry.
pub const MAX_FRAC_DIGITS: usize = 6;

/// The digits after the optional leading sign.
pub open spec fn number_body(s: Seq<u8>) -> Seq<u8> {
    if s.len() > 0 && (s.first() == 43 || s.first() == 45) {
        s.drop_first()
    } else {
        s
    }
}

/// -1 for a leading minus sign, else 1.
pub open spec fn number_sign(s: Seq<u8>) -> int {
    if s.len() > 0 && s.first() == 45 {
        -1
    } else {
        1
    }
}

/// A well-formed decimal number: optional sign, then digits with at most
/// one point; at least one digit in all; at most `MAX_INT_DIGITS` before
/// and `MAX_FRAC_DIGITS` after the point.
pub open spec fn valid_number(s: Seq<u8>) -> bool {
    let parts = split_spec(number_body(s), 46);
    &&& parts.len() == 1 || parts.len() == 2
    &&& all_digits(parts[0])
    &&& parts[0].len() <= MAX_INT_DIGITS
    &&& parts.len() == 2 ==> all_digits(parts[1]) && parts[1].len() <= MAX_FRAC_DIGITS
    &&& parts[0].len() + (if parts.len() == 2 {
        parts[1].len()
    } else {
        0
    }) >= 1
}

/// The fixed-point value of a well-formed number: the signed decimal
/// value times `SCALE`, truncated toward zero, saturated into range.
pub open spec fn number_value(s: Seq<u8>) -> i64
    recommends
        valid_number(s),
{
    let parts = split_spec(number_body(s), 46);
    let fp = if parts.len() == 2 {
        parts[1]
    } else {
        Seq::<u8>::empty()
    };
    let scaled = (digits_val(parts[0]) * pow10(fp.len()) + digits_val(fp)) * (SCALE as int);
    clip(number_sign(s) * tdiv(scaled, pow10(fp.len())))
}

proof fn lemma_pow10_pos(n: nat)
    ensures
        pow10(n) >= 1,
    decreases n,
{
    if n > 0 {
        lemma_pow10_pos((n - 1) as nat);
    }
}

proof fn lemma_pow10_le(a: nat, b: nat)
    requires
        a <= b,
    ensures
        pow10(a) <= pow10(b),
    decreases b,
{
    if a < b {
        lemma_pow10_le(a, (b - 1) as nat);
        lemma_pow10_pos((b - 1) as nat);
    }
}

/// `pow10` grows with its argument and stays positive.
proof fn lemma_pow10_bounds(n: nat)
    ensures
        pow10(n) >= 1,
        n <= 12 ==> pow10(n) <= 1000000000000,
{
    lemma_pow10_pos(n);
    if n <= 12 {
        lemma_pow10_le(n, 12);
        assert(pow10(12) == 1000000000000) by {
            reveal_with_fuel(pow10, 13);
        }
    }
}

/// Reads an unsigned digit string of at most `max_len` digits; rejects
/// anything else.
fn parse_digits(s: &Vec<u8>, max_len: usize) -> (r: Option<u64>)
    requires
        max_len <= 12,
    ensures
        r is Some <==> all_digits(s@) && s@.len() <= max_len,
        r matches Some(v) ==> v == digits_val(s@) && v < pow10(s@.len() as nat)
            <= 1000000000000,
{
    if s.len() > max_len {
        return None;
    }
    let mut acc: u64 = 0;
    proof {
        assert(s@.take(0) =~= Seq::<u8>::empty());
    }
    for i in 0..s.len()
        invariant
            s@.len() <= max_len <= 12,
            all_digits(s@.take(i as int)),
            acc == digits_val(s@.take(i as int)),
            acc < pow10(i as nat),
            pow10(i as nat) <= 1000000000000,
    {
        let c = s[i];
        if c < 48 || c > 57 {
            proof {
                if all_digits(s@) {
                    assert(is_digit(s@[i as int]));
                }
            }
            return None;
        }
        proof {
            assert(s@.take(i + 1).drop_last() =~= s@.take(i as int));
            assert(s@.take(i + 1).last() == s@[i as int]);
            assert(all_digits(s@.take(i + 1))) by {
                assert(forall|j: int| 0 <= j < i + 1 ==> s@.take(i + 1)[j] == s@[j]);
            }
            lemma_pow10_bounds((i + 1) as nat);
        }
        acc = acc * 10 + ((c - 48) as u64);
    }
    proof {
        assert(s@.take(s@.len() as int) =~= s@);
        lemma_pow10_bounds(s@.len() as nat);
        lemma_pow10_le(s@.len() as nat, 12);
    }
    Some(acc)
}

/// Ten to a small power, for scaling fraction digits.
fn pow10_exec(n: usize) -> (r: u64)
    requires
        n <= 6,
    ensures
        r == pow10(n as nat),
        1 <= r <= 1000000,
{
    let mut r: u64 = 1;
    for i in 0..n
        invariant
            n <= 6,
            r == pow10(i as nat),
            r <= 1000000,
        decreases n - i,
    {
        proof {
            lemma_pow10_bounds(i as nat);
            lemma_pow10_le((i + 1) as nat, 6);
            lemma_pow10_bounds(6);
            assert(pow10(6) == 1000000) by {
                reveal_with_fuel(pow10, 8);
            }
        }
        r = r * 10;
    }
    proof {
        lemma_pow10_bounds(n as nat);
        lemma_pow10_le(n as nat, 6);
        assert(pow10(6) == 1000000) by {
            reveal_with_fuel(pow10, 8);
        }
    }
    r
}

/// Reads one decimal number field into its fixed-point value; `None`
/// exactly on a malformed field.
pub fn parse_number(field: &Vec<u8>) -> (r: Option<i64>)
    ensures
        r is Some <==> valid_number(field@),
        r matches Some(v) ==> v == number_value(field@) && fx_ok(v),
{
    let mut body: Vec<u8> = Vec::new();
    let start: usize = if field.len() > 0 && (field[0] == 43 || field[0] == 45) {
        1
    } else {
        0
    };
    let negative = field.len() > 0 && field[0] == 45;
    let mut i = start;
    while i < field.len()
        invariant
            start <= i <= field@.len(),
            body@ =~= field@.subrange(start as int, i as int),
        decreases field@.len() - i,
    {
        body.push(field[i]);
        proof {
            assert(body@ =~= field@.subrange(start as int, i + 1));
        }
        i = i + 1;
    }
    proof {
        assert(body@ =~= number_body(field@));
    }
    let parts = split_bytes(&body, 46);
    proof {
        lemma_split_nonempty(body@, 46);
    }
    if parts.len() > 2 {
        return None;
    }
    let ip = match parse_digits(&parts[0], MAX_INT_DIGITS) {
        Some(v) => v,
        None => {
            return None;
        },
    };
    let (fp, fp_len): (u64, usize) = if parts.len() == 2 {
        match parse_digits(&parts[1], MAX_FRAC_DIGITS) {
            Some(v) => (v, parts[1].len()),
            None => {
                return None;
            },
        }
    } else {
        (0, 0)
    };
    if parts[0].len() == 0 && fp_len == 0 {
        return None;
    }
    let ghost gparts = split_spec(number_body(field@), 46);
    let ghost gfp = if gparts.len() == 2 {
        gparts[1]
    } else {
        Seq::<u8>::empty()
    };
    proof {
        assert(gparts.len() == parts@.len());
        assert(parts@[0]@ == gparts[0]);
        if parts@.len() == 2 {
            assert(parts@[1]@ == gparts[1]);
        }
        assert(fp == digits_val(gfp) && fp_len == gfp.len());
        assert(valid_number(field@));
        lemma_pow10_bounds(gfp.len());
    }
    let p10 = pow10_exec(fp_len);
    proof {
        assert(0 <= ip < 1000000000000 && 0 <= fp < 1000000 && 1 <= p10 <= 1000000);
        assert(0 <= (ip as i128) * (p10 as i128) <= 1000000000000000000) by (nonlinear_arith)
            requires
                0 <= ip < 1000000000000,
                0 <= p10 <= 1000000,
        ;
    }
    let prod: i128 = (ip as i128) * (p10 as i128);
    let scaled: i128 = (prod + (fp as i128)) * 65536;
    let q = crate::fixed::tdiv_wide(scaled, p10 as i128);
    proof {
        crate::fixed::lemma_tdiv_sign(scaled as int, p10 as int);
        lemma_clip_ok(-q as int);
        lemma_clip_ok(q as int);
    }
    let v = if negative {
        crate::fixed::clip_wide(-q)
    } else {
        crate::fixed::clip_wide(q)
    };
    Some(v)
}

/// The keyword opening every object line.
pub open spec fn is_planet_keyword(s: Seq<u8>) -> bool {
    s.len() == 6 && s[0] == 80 && s[1] == 108 && s[2] == 97 && s[3] == 110 && s[4] == 101
        && s[5] == 116
}

/// What one line means: trimmed and split on spaces it must be the
/// keyword and three numbers, or nothing.
pub open spec fn parse_line_spec(line: Seq<u8>) -> Option<LevelAssetObject> {
    let parts = split_spec(trim_spec(line), 32);
    if parts.len() == 4 && is_planet_keyword(parts[0]) && valid_number(parts[1])
        && valid_number(parts[2]) && valid_number(parts[3]) {
        Some(LevelAssetObject::Planet {
            x: number_value(parts[1]),
            y: number_value(parts[2]),
            radius: number_value(parts[3]),
        })
    } else {
        None
    }
}

/// Reads one line of a level file; `None` exactly on a malformed line.
pub fn parse_line(line: &Vec<u8>) -> (r: Option<LevelAssetObject>)
    ensures
        r == parse_line_spec(line@),
{
    let trimmed = trim_bytes(line);
    let parts = split_bytes(&trimmed, 32);
    if parts.len() != 4 {
        return None;
    }
    let kw = &parts[0];
    if !(kw.len() == 6 && kw[0] == 80 && kw[1] == 108 && kw[2] == 97 && kw[3] == 110
        && kw[4] == 101 && kw[5] == 116) {
        return None;
    }
    let x = match parse_number(&parts[1]) {
        Some(v) => v,
        None => {
            return None;
        },
    };
    let y = match parse_number(&parts[2]) {
        Some(v) => v,
        None => {
            return None;
        },
    };
    let radius = match parse_number(&parts[3]) {
        Some(v) => v,
        None => {
            return None;
        },
    };
    Some(LevelAssetObject::Planet { x, y, radius })
}

/// The lines of a level file: split on line feeds; a final line ending is
/// optional, so one trailing empty piece is not a line.
pub open spec fn lines_spec(source: Seq<u8>) -> Seq<Seq<u8>> {
    let pieces = split_spec(source, 10);
    if pieces.last().len() == 0 {
        pieces.drop_last()
    } else {
        pieces
    }
}

/// Every parsed coordinate and radius is a well-formed fixed-point value.
pub open spec fn level_asset_ok(asset: &LevelAsset) -> bool {
    forall|i: int| 0 <= i < asset.objects@.len() ==> {
        let LevelAssetObject::Planet { x, y, radius } = #[trigger] asset.objects@[i];
        fx_ok(x) && fx_ok(y) && fx_ok(radius)
    }
}

/// Reads a whole level file. Succeeds exactly when every line is a
/// well-formed object; otherwise reports the first bad line, and the
/// level loads not at all.
pub fn parse_level(source: &Vec<u8>) -> (r: Result<LevelAsset, LevelParseError>)
    ensures
        r is Ok <==> (forall|i: int| 0 <= i < lines_spec(source@).len()
            ==> (#[trigger] parse_line_spec(lines_spec(source@)[i])) is Some),
        r matches Ok(asset) ==> asset.objects@.len() == lines_spec(source@).len() && (forall|
            i: int,
        | 0 <= i < asset.objects@.len() ==> Some(#[trigger] asset.objects@[i])
            == parse_line_spec(lines_spec(source@)[i])) && level_asset_ok(&asset),
        r matches Err(e) ==> e.line < lines_spec(source@).len() && parse_line_spec(
            lines_spec(source@)[e.line as int]) is None && (forall|j: int| 0 <= j < e.line
            ==> (#[trigger] parse_line_spec(lines_spec(source@)[j])) is Some),
{
    let pieces = split_bytes(source, 10);
    proof {
        lemma_split_nonempty(source@, 10);
    }
    let count = if pieces[pieces.len() - 1].len() == 0 {
        pieces.len() - 1
    } else {
        pieces.len()
    };
    proof {
        assert(pieces@[pieces@.len() - 1]@ == split_spec(source@, 10).last());
        if split_spec(source@, 10).last().len() == 0 {
            assert(lines_spec(source@) =~= split_spec(source@, 10).drop_last());
        }
        assert(count == lines_spec(source@).len());
        assert(forall|i: int| 0 <= i < count ==> lines_spec(source@)[i] == split_spec(
            source@, 10)[i]);
    }
    let mut objects: Vec<LevelAssetObject> = Vec::new();
    for i in 0..count
        invariant
            count <= pieces@.len(),
            count == lines_spec(source@).len(),
            forall|j: int| 0 <= j < pieces@.len() ==> #[trigger] pieces@[j]@ == split_spec(
                source@, 10)[j],
            forall|j: int| 0 <= j < count ==> #[trigger] lines_spec(source@)[j]
                == split_spec(source@, 10)[j],
            objects@.len() == i,
            forall|j: int| 0 <= j < i ==> Some(#[trigger] objects@[j]) == parse_line_spec(
                lines_spec(source@)[j]),
    {
        match parse_line(&pieces[i]) {
            Some(object) => {
                objects.push(object);
            },
            None => {
                proof {
                    assert forall|j: int| 0 <= j < i implies (#[trigger] parse_line_spec(
                        lines_spec(source@)[j])) is Some by {
                        assert(Some(objects@[j]) == parse_line_spec(lines_spec(source@)[j]));
                    }
                }
                return Err(LevelParseError { line: i });
            },
        }
    }
    let asset = LevelAsset { objects };
    proof {
        assert forall|i: int| 0 <= i < asset.objects@.len() implies {
            let LevelAssetObject::Planet { x, y, radius } = #[trigger] asset.objects@[i];
            fx_ok(x) && fx_ok(y) && fx_ok(radius)
        } by {
            assert(Some(asset.objects@[i]) == parse_line_spec(lines_spec(source@)[i]));
        }
        assert forall|i: int| 0 <= i < count implies (#[trigger] parse_line_spec(
            lines_spec(source@)[i])) is Some by {
            assert(Some(asset.objects@[i]) == parse_line_spec(lines_spec(source@)[i]));
        }
    }
    Ok(asset)
}

/// Spawns the planets a parsed level describes, in file order, deriving
/// each mass as `radius^3`. `None` exactly when some radius is not
/// positive — such a level describes no world.
pub fn spawn_level_objects(asset: &LevelAsset) -> (r: Option<Vec<Planet>>)
    requires
        level_asset_ok(asset),
    ensures
        r is Some <==> (forall|i: int| 0 <= i < asset.objects@.len()
            ==> ((#[trigger] asset.objects@[i]) matches LevelAssetObject::Planet {
            radius, .. } && radius > 0)),
        r matches Some(planets) ==> planets@.len() == asset.objects@.len() && (forall|i: int|
            0 <= i < planets@.len() ==> (asset.objects@[i] matches LevelAssetObject::Planet {
            x, y, radius } && #[trigger] planets@[i] == (Planet {
            position: Vec2 { x, y },
            radius,
            mass: planet_mass_spec(radius),
        }))) && planets_ok(planets@),
{
    let mut planets: Vec<Planet> = Vec::new();
    for i in 0..asset.objects.len()
        invariant
            level_asset_ok(asset),
            planets@.len() == i,
            forall|j: int| 0 <= j < i ==> ((#[trigger] asset.objects@[j])
                matches LevelAssetObject::Planet { radius, .. } && radius > 0),
            forall|j: int| 0 <= j < i ==> (asset.objects@[j]
                matches LevelAssetObject::Planet { x, y, radius } && #[trigger] planets@[j]
                == (Planet { position: Vec2 { x, y }, radius, mass: planet_mass_spec(radius) })),
            planets_ok(planets@),
    {
        let LevelAssetObject::Planet { x, y, radius } = asset.objects[i];
        if radius <= 0 {
            return None;
        }
        let planet = Planet::new(Vec2 { x, y }, radius);
        planets.push(planet);
    }
    Some(planets)
}

} // verus!
