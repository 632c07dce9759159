use vstd::prelude::*;
use vstd::string::*;
use crate::ibt::IbtError;
use crate::text::{has_prefix, split, split_str, starts_with, trim, trim_str};

verus! {

broadcast use vstd::string::group_string_axioms;

// ---------------------------------------------------------------------------
// Decimal integers
// ---------------------------------------------------------------------------

pub open spec fn is_digit(c: char) -> bool {
    '0' <= c && c <= '9'
}

pub open spec fn all_digits(s: Seq<char>) -> bool {
    forall|i: int| 0 <= i < s.len() ==> is_digit(#[trigger] s[i])
}

/// The number that a string of decimal digits spells.
pub open spec fn digits_value(s: Seq<char>) -> int
    decreases s.len(),
{
    if s.len() == 0 {
        0
    } else {
        digits_value(s.drop_last()) * 10 + (s.last() as int - '0' as int)
    }
}

/// The integer that `s` spells: an optional sign, then one or more decimal digits.
pub open spec fn int_of(s: Seq<char>) -> Option<int> {
    if s.len() > 0 && (s[0] == '-' || s[0] == '+') {
        let rest = s.drop_first();
        if rest.len() > 0 && all_digits(rest) {
            Some(if s[0] == '-' { -digits_value(rest) } else { digits_value(rest) })
        } else {
            None
        }
    } else if s.len() > 0 && all_digits(s) {
        Some(digits_value(s))
    } else {
        None
    }
}

/// What `str::parse::<i32>` gives: the integer, where it spells one that fits.
pub open spec fn i32_of(s: Seq<char>) -> Option<i32> {
    match int_of(s) {
        Some(v) => if i32::MIN <= v && v <= i32::MAX {
            Some(v as i32)
        } else {
            None
        },
        None => None,
    }
}

proof fn lemma_digits_grow(s: Seq<char>, k: int)
    requires
        0 <= k <= s.len(),
        all_digits(s),
    ensures
        0 <= digits_value(s.take(k)) <= digits_value(s),
    decreases s.len() - k,
{
    if k < s.len() {
        lemma_digits_grow(s, k + 1);
        assert(s.take(k + 1).drop_last() =~= s.take(k));
        assert(is_digit(s[k]));
    } else {
        assert(s.take(k) =~= s);
        lemma_digits_nonneg(s);
    }
}

proof fn lemma_digits_nonneg(s: Seq<char>)
    requires
        all_digits(s),
    ensures
        digits_value(s) >= 0,
    decreases s.len(),
{
    if s.len() > 0 {
        assert(is_digit(s.last()));
        lemma_digits_nonneg(s.drop_last());
    }
}

/// Parses a decimal `i32` as `str::parse` does.
pub fn parse_i32(s: &str) -> (r: Option<i32>)
    ensures
        r == i32_of(s@),
{
    let n = s.unicode_len();
    if n == 0 {
        return None;
    }
    let first = s.get_char(0);
    let neg = first == '-';
    let start: usize = if first == '-' || first == '+' { 1 } else { 0 };
    if start == n {
        return None;
    }
    let ghost body = s@.skip(start as int);
    assert(s@[0] == first);
    let mut acc: i64 = 0;
    let mut big = false;
    let mut i: usize = start;
    while i < n
        invariant
            start <= i <= n,
            n == s@.len(),
            n > 0,
            start == 0 || start == 1,
            start == 1 <==> (s@[0] == '-' || s@[0] == '+'),
            neg == (s@[0] == '-'),
            body == s@.skip(start as int),
            all_digits(body.take(i - start)),
            !big ==> acc == digits_value(body.take(i - start)),
            !big ==> 0 <= acc <= 0x8000_0000,
            big ==> digits_value(body.take(i - start)) > 0x8000_0000,
        decreases n - i,
    {
        let c = s.get_char(i);
        proof {
            assert(body[i - start] == c);
        }
        if !('0' <= c && c <= '9') {
            proof {
                assert(!is_digit(body[i - start]));
                assert(!all_digits(body));
                if start == 1 {
                    assert(s@.drop_first() =~= body);
                } else {
                    assert(s@.skip(0) =~= s@);
                }
            }
            return None;
        }
        proof {
            assert(body.take(i - start + 1).drop_last() =~= body.take(i - start));
            assert(body.take(i - start + 1).last() == c);
            assert(all_digits(body.take(i - start + 1)));
        }
        if !big {
            acc = acc * 10 + (c as i64 - '0' as i64);
            if acc > 0x8000_0000 {
                big = true;
            }
        } else {
            proof {
                lemma_digits_grow(body.take(i - start + 1), i - start);
                assert(body.take(i - start + 1).take(i - start) =~= body.take(i - start));
            }
        }
        i = i + 1;
    }
    proof {
        assert(body.take(n - start) =~= body);
        if start == 1 {
            assert(s@.drop_first() =~= body);
        } else {
            assert(s@.skip(0) =~= s@);
        }
    }
    if big {
        return None;
    }
    if neg {
        Some((-acc) as i32)
    } else if acc > 0x7fff_ffff {
        None
    } else {
        Some(acc as i32)
    }
}

// ---------------------------------------------------------------------------
// Session info
// ---------------------------------------------------------------------------

/// The session facts that are read from the recording's embedded YAML.
#[derive(Debug, Clone)]
pub struct IbtSessionInfo {
    pub track_name: String,
    pub track_display_name: String,
    pub track_config_name: String,
    pub track_length: String,
    pub car_name: String,
    pub car_screen_name: String,
    pub driver_name: String,
    pub driver_car_idx: i32,
    pub session_type: String,
}

pub ghost struct SessionInfoView {
    pub track_name: Seq<char>,
    pub track_display_name: Seq<char>,
    pub track_config_name: Seq<char>,
    pub track_length: Seq<char>,
    pub car_name: Seq<char>,
    pub car_screen_name: Seq<char>,
    pub driver_name: Seq<char>,
    pub driver_car_idx: i32,
    pub session_type: Seq<char>,
}

impl View for IbtSessionInfo {
    type V = SessionInfoView;

    open spec fn view(&self) -> SessionInfoView {
        SessionInfoView {
            track_name: self.track_name@,
            track_display_name: self.track_display_name@,
            track_config_name: self.track_config_name@,
            track_length: self.track_length@,
            car_name: self.car_name@,
            car_screen_name: self.car_screen_name@,
            driver_name: self.driver_name@,
            driver_car_idx: self.driver_car_idx,
            session_type: self.session_type@,
        }
    }
}

/// No facts: every text empty, car index 0.
pub open spec fn empty_info() -> SessionInfoView {
    SessionInfoView {
        track_name: Seq::empty(),
        track_display_name: Seq::empty(),
        track_config_name: Seq::empty(),
        track_length: Seq::empty(),
        car_name: Seq::empty(),
        car_screen_name: Seq::empty(),
        driver_name: Seq::empty(),
        driver_car_idx: 0,
        session_type: Seq::empty(),
    }
}

impl Default for IbtSessionInfo {
    fn default() -> (r: IbtSessionInfo)
        ensures
            r@ == empty_info(),
    {
        IbtSessionInfo {
            track_name: String::new(),
            track_display_name: String::new(),
            track_config_name: String::new(),
            track_length: String::new(),
            car_name: String::new(),
            car_screen_name: String::new(),
            driver_name: String::new(),
            driver_car_idx: 0,
            session_type: String::new(),
        }
    }
}

/// The value after `key` on the trimmed line `t`, trimmed.
pub open spec fn value_after(t: Seq<char>, key: Seq<char>) -> Seq<char> {
    trim(t.skip(key.len() as int))
}

/// The value of each recognised key on the first line that has it, if any line does.
pub ghost struct FirstValues {
    pub track_name: Option<Seq<char>>,
    pub track_display_name: Option<Seq<char>>,
    pub track_config_name: Option<Seq<char>>,
    pub track_length: Option<Seq<char>>,
    pub car_screen_name: Option<Seq<char>>,
    pub user_name: Option<Seq<char>>,
    pub driver_car_idx: Option<Seq<char>>,
    pub session_type: Option<Seq<char>>,
}

/// `found` if a value was already found; else the value on the trimmed line `t`, if it
/// begins with `key`.
pub open spec fn keep_first(found: Option<Seq<char>>, t: Seq<char>, key: Seq<char>) -> Option<
    Seq<char>,
> {
    if found is Some {
        found
    } else if has_prefix(t, key) {
        Some(value_after(t, key))
    } else {
        None
    }
}

/// What one line adds to the values found so far: each key keeps its first value.
pub open spec fn apply_line(f: FirstValues, line: Seq<char>) -> FirstValues {
    let t = trim(line);
    FirstValues {
        track_name: keep_first(f.track_name, t, "TrackName:"@),
        track_display_name: keep_first(f.track_display_name, t, "TrackDisplayName:"@),
        track_config_name: keep_first(f.track_config_name, t, "TrackConfigName:"@),
        track_length: keep_first(f.track_length, t, "TrackLength:"@),
        car_screen_name: keep_first(f.car_screen_name, t, "CarScreenName:"@),
        user_name: keep_first(f.user_name, t, "UserName:"@),
        driver_car_idx: keep_first(f.driver_car_idx, t, "DriverCarIdx:"@),
        session_type: keep_first(f.session_type, t, "SessionType:"@),
    }
}

/// The first values in `lines`, read first to last.
pub open spec fn gather(lines: Seq<Seq<char>>) -> FirstValues
    decreases lines.len(),
{
    if lines.len() == 0 {
        FirstValues {
            track_name: None,
            track_display_name: None,
            track_config_name: None,
            track_length: None,
            car_screen_name: None,
            user_name: None,
            driver_car_idx: None,
            session_type: None,
        }
    } else {
        apply_line(gather(lines.drop_last()), lines.last())
    }
}

/// A found text, or the empty text.
pub open spec fn or_empty(o: Option<Seq<char>>) -> Seq<char> {
    match o {
        Some(v) => v,
        None => Seq::empty(),
    }
}

/// The session info of a YAML text: for each key the value on the first line that has
/// it, or empty. The display name falls back to the track name, the car name is the
/// screen name, and a first car index that does not parse leaves 0.
pub open spec fn session_info_of(yaml: Seq<char>) -> SessionInfoView {
    let g = gather(split(yaml, '\n'));
    SessionInfoView {
        track_name: or_empty(g.track_name),
        track_display_name: if or_empty(g.track_display_name).len() == 0 {
            or_empty(g.track_name)
        } else {
            or_empty(g.track_display_name)
        },
        track_config_name: or_empty(g.track_config_name),
        track_length: or_empty(g.track_length),
        car_name: or_empty(g.car_screen_name),
        car_screen_name: or_empty(g.car_screen_name),
        driver_name: or_empty(g.user_name),
        driver_car_idx: match g.driver_car_idx {
            Some(v) => match i32_of(v) {
                Some(idx) => idx,
                None => 0,
            },
            None => 0,
        },
        session_type: or_empty(g.session_type),
    }
}

/// The view of a text that may be absent.
pub open spec fn opt_view(o: Option<String>) -> Option<Seq<char>> {
    match o {
        Some(s) => Some(s@),
        None => None,
    }
}

/// The trimmed value after `key` on the trimmed line `t`, where `t` begins with it.
fn try_extract_yaml_value(t: &str, key: &str) -> (r: Option<String>)
    ensures
        has_prefix(t@, key@) ==> r is Some && r->0@ == value_after(t@, key@),
        !has_prefix(t@, key@) ==> r is None,
{
    if !starts_with(t, key) {
        return None;
    }
    let n = t.unicode_len();
    let k = key.unicode_len();
    let rest = t.substring_char(k, n);
    let v = trim_str(rest);
    Some(v.to_string())
}

/// `found` if a value was already found; else the value on the trimmed line `t`, if
/// it begins with `key`.
fn keep_first_exec(found: Option<String>, t: &str, key: &str) -> (r: Option<String>)
    ensures
        opt_view(r) == keep_first(opt_view(found), t@, key@),
{
    match found {
        Some(v) => Some(v),
        None => try_extract_yaml_value(t, key),
    }
}

/// The text, or an empty one.
fn text_or_empty(o: Option<String>) -> (r: String)
    ensures
        r@ == or_empty(opt_view(o)),
{
    match o {
        Some(v) => v,
        None => String::new(),
    }
}

impl IbtSessionInfo {
    /// Reads the session facts from the YAML text line by line, without a YAML parser:
    /// each recognised key takes its value from the first line that has it.
    pub fn from_yaml(yaml: &str) -> (r: Result<IbtSessionInfo, IbtError>)
        ensures
            r is Ok,
            r->Ok_0@ == session_info_of(yaml@),
    {
        let mut track_name: Option<String> = None;
        let mut track_display_name: Option<String> = None;
        let mut track_config_name: Option<String> = None;
        let mut track_length: Option<String> = None;
        let mut car_screen_name: Option<String> = None;
        let mut user_name: Option<String> = None;
        let mut driver_car_idx: Option<String> = None;
        let mut session_type: Option<String> = None;
        let lines = split_str(yaml, '\n');
        let ghost ls = lines@.map_values(|p: &str| p@);
        let mut i: usize = 0;
        while i < lines.len()
            invariant
                0 <= i <= lines@.len(),
                ls == lines@.map_values(|p: &str| p@),
                ls == split(yaml@, '\n'),
                opt_view(track_name) == gather(ls.take(i as int)).track_name,
                opt_view(track_display_name) == gather(ls.take(i as int)).track_display_name,
                opt_view(track_config_name) == gather(ls.take(i as int)).track_config_name,
                opt_view(track_length) == gather(ls.take(i as int)).track_length,
                opt_view(car_screen_name) == gather(ls.take(i as int)).car_screen_name,
                opt_view(user_name) == gather(ls.take(i as int)).user_name,
                opt_view(driver_car_idx) == gather(ls.take(i as int)).driver_car_idx,
                opt_view(session_type) == gather(ls.take(i as int)).session_type,
            decreases lines@.len() - i,
        {
            let t = trim_str(lines[i]);
            proof {
                assert(ls.take(i + 1).drop_last() =~= ls.take(i as int));
                assert(ls.take(i + 1).last() == lines@[i as int]@);
            }
            track_name = keep_first_exec(track_name, t, "TrackName:");
            track_display_name = keep_first_exec(track_display_name, t, "TrackDisplayName:");
            track_config_name = keep_first_exec(track_config_name, t, "TrackConfigName:");
            track_length = keep_first_exec(track_length, t, "TrackLength:");
            car_screen_name = keep_first_exec(car_screen_name, t, "CarScreenName:");
            user_name = keep_first_exec(user_name, t, "UserName:");
            driver_car_idx = keep_first_exec(driver_car_idx, t, "DriverCarIdx:");
            session_type = keep_first_exec(session_type, t, "SessionType:");
            i = i + 1;
        }
        proof {
            assert(ls.take(ls.len() as int) =~= ls);
        }
        let track_name = text_or_empty(track_name);
        let shown = text_or_empty(track_display_name);
        let track_display_name = if shown.unicode_len() == 0 {
            track_name.clone()
        } else {
            shown
        };
        let car_screen_name = text_or_empty(car_screen_name);
        let idx = match driver_car_idx {
            Some(v) => match parse_i32(v.as_str()) {
                Some(n) => n,
                None => 0,
            },
            None => 0,
        };
        Ok(IbtSessionInfo {
            track_name,
            track_display_name,
            track_config_name: text_or_empty(track_config_name),
            track_length: text_or_empty(track_length),
            car_name: car_screen_name.clone(),
            car_screen_name,
            driver_name: text_or_empty(user_name),
            driver_car_idx: idx,
            session_type: text_or_empty(session_type),
        })
    }
}

} // verus!
