use vstd::prelude::*;
use vstd::arithmetic::div_mod::*;
use vstd::arithmetic::mul::*;

use crate::config::{text_of, Config};
use crate::grid::{grid_position, position_of};

verus! {

pub open spec fn digit_char(d: nat) -> char {
    if d == 0 {
        '0'
    } else if d == 1 {
        '1'
    } else if d == 2 {
        '2'
    } else if d == 3 {
        '3'
    } else if d == 4 {
        '4'
    } else if d == 5 {
        '5'
    } else if d == 6 {
        '6'
    } else if d == 7 {
        '7'
    } else if d == 8 {
        '8'
    } else {
        '9'
    }
}

/// Decimal digits of `n`, without leading zeros.
pub open spec fn decimal(n: nat) -> Seq<char>
    decreases n,
{
    if n < 10 {
        seq![digit_char(n)]
    } else {
        decimal(n / 10) + seq![digit_char(n % 10)]
    }
}

/// Decimal digits of `n`, with zeros in front up to `width` characters.
pub open spec fn zero_padded(n: nat, width: nat) -> Seq<char> {
    let d = decimal(n);
    if d.len() >= width {
        d
    } else {
        Seq::new((width - d.len()) as nat, |_i: int| '0') + d
    }
}

/// A WebVTT timestamp `[H:]MM:SS.mmm` for `ms` milliseconds; the hours are
/// left out when zero.
pub open spec fn timestamp_text(ms: nat) -> Seq<char> {
    let hours = ms / 3_600_000;
    let minutes = ms / 60_000 % 60;
    let seconds = ms / 1000 % 60;
    let millis = ms % 1000;
    let rest = zero_padded(minutes, 2) + ":"@ + zero_padded(seconds, 2) + "."@ + zero_padded(
        millis,
        3,
    );
    if hours > 0 {
        decimal(hours) + ":"@ + rest
    } else {
        rest
    }
}

fn digit(d: u64) -> (r: &'static str)
    requires
        d < 10,
    ensures
        r@ == seq![digit_char(d as nat)],
{
    if d == 0 {
        proof {
            reveal_strlit("0");
        }
        "0"
    } else if d == 1 {
        proof {
            reveal_strlit("1");
        }
        "1"
    } else if d == 2 {
        proof {
            reveal_strlit("2");
        }
        "2"
    } else if d == 3 {
        proof {
            reveal_strlit("3");
        }
        "3"
    } else if d == 4 {
        proof {
            reveal_strlit("4");
        }
        "4"
    } else if d == 5 {
        proof {
            reveal_strlit("5");
        }
        "5"
    } else if d == 6 {
        proof {
            reveal_strlit("6");
        }
        "6"
    } else if d == 7 {
        proof {
            reveal_strlit("7");
        }
        "7"
    } else if d == 8 {
        proof {
            reveal_strlit("8");
        }
        "8"
    } else {
        proof {
            reveal_strlit("9");
        }
        "9"
    }
}

/// `n` in decimal.
pub fn decimal_string(n: u64) -> (r: String)
    ensures
        r@ == decimal(n as nat),
    decreases n,
{
    if n < 10 {
        String::from_str(digit(n))
    } else {
        let mut s = decimal_string(n / 10);
        s.append(digit(n % 10));
        s
    }
}

/// `n` in decimal, with zeros in front up to `width` characters.
pub fn zero_padded_string(n: u64, width: usize) -> (r: String)
    ensures
        r@ == zero_padded(n as nat, width as nat),
{
    let digits = decimal_string(n);
    let len = digits.as_str().unicode_len();
    let mut r = String::new();
    let mut k: usize = len;
    while k < width
        invariant
            len == digits@.len(),
            len <= k <= width || (k == len && len > width),
            r@ =~= Seq::new((k - len) as nat, |_i: int| '0'),
        decreases width - k,
    {
        proof {
            reveal_strlit("0");
        }
        r.append("0");
        k = k + 1;
        assert(r@ =~= Seq::new((k - len) as nat, |_i: int| '0'));
    }
    r.append(digits.as_str());
    proof {
        if len >= width {
            assert(r@ =~= digits@);
        }
    }
    r
}

/// Formats `mseconds_total` milliseconds as a WebVTT timestamp
/// `[H:]MM:SS.mmm`, leaving out the hours when they are zero.
pub fn timestamp(mseconds_total: u64) -> (r: String)
    ensures
        r@ == timestamp_text(mseconds_total as nat),
{
    let hours = mseconds_total / 3_600_000;
    let minutes = mseconds_total / 60_000 % 60;
    let seconds = mseconds_total / 1000 % 60;
    let mseconds = mseconds_total % 1000;
    let mut r = if hours > 0 {
        let mut h = decimal_string(hours);
        h.append(":");
        h
    } else {
        String::new()
    };
    let m = zero_padded_string(minutes, 2);
    r.append(m.as_str());
    r.append(":");
    let s = zero_padded_string(seconds, 2);
    r.append(s.as_str());
    r.append(".");
    let f = zero_padded_string(mseconds, 3);
    r.append(f.as_str());
    proof {
        let ms = mseconds_total as nat;
        let rest = zero_padded(minutes as nat, 2) + ":"@ + zero_padded(seconds as nat, 2) + "."@
            + zero_padded(mseconds as nat, 3);
        if hours > 0 {
            assert(r@ =~= decimal(hours as nat) + ":"@ + rest);
        } else {
            assert(r@ =~= rest);
        }
    }
    r
}

/// Start in milliseconds of the time range of column `i` of `w`, for a
/// stream of `d` milliseconds.
pub open spec fn range_start(d: nat, w: nat, i: nat) -> nat {
    d * i / w
}

/// End in milliseconds of the time range of column `i` of `w`.
pub open spec fn range_end(d: nat, w: nat, i: nat) -> nat {
    d * (i + 1) / w
}

/// Time range `(from, to)` in milliseconds covered by column `i` of `width`.
pub fn time_range(duration_ms: u64, width: usize, i: usize) -> (r: (u64, u64))
    requires
        width >= 1,
        i < width,
    ensures
        r.0 == range_start(duration_ms as nat, width as nat, i as nat),
        r.1 == range_end(duration_ms as nat, width as nat, i as nat),
{
    let d = duration_ms as u128;
    let w = width as u128;
    proof {
        assert(d * (i + 1) <= d * w && d * w <= u128::MAX && d * i <= d * (i + 1))
            by (nonlinear_arith)
            requires d <= u64::MAX, w <= usize::MAX, usize::MAX < 0x1_0000_0000_0000_0000,
                i < w;
    }
    let a = d * (i as u128);
    let b = d * (i as u128 + 1);
    proof {
        lemma_div_is_ordered(a as int, b as int, w as int);
        lemma_div_is_ordered(b as int, (d * w) as int, w as int);
        lemma_mul_is_commutative(d as int, w as int);
        lemma_div_multiples_vanish(d as int, w as int);
    }
    ((a / w) as u64, (b / w) as u64)
}

/// The time ranges of the columns cover `[0, d)` without gaps or overlaps:
/// the first starts at zero, each ends where the next starts, the last ends
/// at `d`, and none runs backwards. When the stream has at least as many
/// milliseconds as there are columns, no range is empty.
pub proof fn lemma_ranges_partition(d: nat, w: nat, i: nat)
    requires
        w >= 1,
        i < w,
    ensures
        range_start(d, w, 0) == 0,
        i + 1 < w ==> range_end(d, w, i) == range_start(d, w, i + 1),
        range_end(d, w, (w - 1) as nat) == d,
        range_start(d, w, i) <= range_end(d, w, i),
        d >= w ==> range_start(d, w, i) < range_end(d, w, i),
{
    lemma_div_basics(w as int);
    assert(d * 0 == 0);
    assert(d * (i + 1) == d * i + d) by (nonlinear_arith);
    assert(d * ((w - 1) as nat + 1) == d * w) by (nonlinear_arith)
        requires w >= 1;
    lemma_mul_is_commutative(d as int, w as int);
    lemma_div_multiples_vanish(d as int, w as int);
    lemma_div_is_ordered((d * i) as int, (d * i + d) as int, w as int);
    if d >= w {
        lemma_div_is_ordered((d * i + w) as int, (d * i + d) as int, w as int);
        lemma_div_plus_one((d * i) as int, w as int);
    }
}

/// The name a manifest gives its grid images: the manifest's name without
/// its last four characters (its `.vtt`).
pub open spec fn stem_of(s: Seq<char>) -> Seq<char> {
    if s.len() >= 4 {
        s.subrange(0, s.len() - 4)
    } else {
        Seq::empty()
    }
}

/// Name of grid image `k` for the manifest `vtt`: `<stem>-<NN>.jpg`.
pub open spec fn grid_name(vtt: Seq<char>, k: nat) -> Seq<char> {
    stem_of(vtt) + "-"@ + zero_padded(k, 2) + ".jpg"@
}

/// The file name of grid image `i`: the manifest's name with its `.vtt`
/// replaced by `-NN.jpg`.
pub fn grid_filename(i: usize, config: &Config) -> (r: String)
    requires
        config.vtt_filename is Some,
    ensures
        r@ == grid_name(config.vtt_filename.unwrap()@, i as nat),
{
    let vtt = match &config.vtt_filename {
        Some(v) => v.as_str(),
        None => "",
    };
    let len = vtt.unicode_len();
    let mut r = if len >= 4 {
        String::from_str(vtt.substring_char(0, len - 4))
    } else {
        String::new()
    };
    r.append("-");
    let n = zero_padded_string(i as u64, 2);
    r.append(n.as_str());
    r.append(".jpg");
    r
}

/// What `std::path::Path::file_name` gives for a path: its last component,
/// if there is one.
pub uninterp spec fn path_file_name(p: Seq<char>) -> Option<Seq<char>>;

/// Relies on `Path::file_name`, the last component of a path; the path is
/// UTF-8, so the lossy conversion keeps it intact.
#[verifier::external_body]
fn file_name(path: &str) -> (r: Option<String>)
    ensures
        text_of(r) == path_file_name(path@),
{
    match std::path::Path::new(path).file_name() {
        Some(n) => Some(n.to_string_lossy().into_owned()),
        None => None,
    }
}

/// How a manifest refers to a grid image: by its file name, or by the whole
/// path where it has none.
pub open spec fn reference_to(path: Seq<char>) -> Seq<char> {
    match path_file_name(path) {
        Some(n) => n,
        None => path,
    }
}

/// One manifest cue: a time range and the region of the thumbnail image
/// `file` that shows it.
pub open spec fn cue_text(
    from: nat,
    to: nat,
    file: Seq<char>,
    x: nat,
    y: nat,
    w: nat,
    h: nat,
) -> Seq<char> {
    timestamp_text(from) + " --> "@ + timestamp_text(to) + "\n"@ + file + "?xywh="@ + decimal(x)
        + ","@ + decimal(y) + ","@ + decimal(w) + ","@ + decimal(h) + "\n\n"@
}

/// Formats one cue: `from --> to`, then `file?xywh=x,y,w,h`, then a blank
/// line.
pub fn cue(from: u64, to: u64, file: &str, x: u64, y: u64, w: u64, h: u64) -> (r: String)
    ensures
        r@ == cue_text(from as nat, to as nat, file@, x as nat, y as nat, w as nat, h as nat),
{
    let mut r = timestamp(from);
    r.append(" --> ");
    let t = timestamp(to);
    r.append(t.as_str());
    r.append("\n");
    r.append(file);
    r.append("?xywh=");
    let xs = decimal_string(x);
    r.append(xs.as_str());
    r.append(",");
    let ys = decimal_string(y);
    r.append(ys.as_str());
    r.append(",");
    let ws = decimal_string(w);
    r.append(ws.as_str());
    r.append(",");
    let hs = decimal_string(h);
    r.append(hs.as_str());
    r.append("\n\n");
    r
}

/// The cue of column `i` for a stream of `d` milliseconds.
pub open spec fn cue_for(c: Config, d: nat, i: nat) -> Seq<char> {
    let (file, x, y) = position_of(c, i);
    cue_text(
        range_start(d, c.width as nat, i),
        range_end(d, c.width as nat, i),
        reference_to(grid_name(c.vtt_filename.unwrap()@, file)),
        x,
        y,
        c.thumbnail_width as nat,
        c.thumbnail_height as nat,
    )
}

/// The header and the cues of the first `n` columns.
pub open spec fn manifest_text(c: Config, d: nat, n: nat) -> Seq<char>
    decreases n,
{
    if n == 0 {
        "WEBVTT\n\n"@
    } else {
        manifest_text(c, d, (n - 1) as nat) + cue_for(c, d, (n - 1) as nat)
    }
}

/// The WebVTT manifest for a stream of `duration_ms` milliseconds: a
/// `WEBVTT` header and a blank line, then one cue per timeline column
/// pointing at the column's thumbnail.
pub fn manifest(config: &Config, duration_ms: u64) -> (r: String)
    requires
        config.wf(),
        config.vtt_filename is Some,
    ensures
        r@ == manifest_text(*config, duration_ms as nat, config.width as nat),
{
    let mut r = String::from_str("WEBVTT\n\n");
    let mut i: usize = 0;
    while i < config.width
        invariant
            config.wf(),
            config.vtt_filename is Some,
            i <= config.width,
            r@ == manifest_text(*config, duration_ms as nat, i as nat),
        decreases config.width - i,
    {
        let (from, to) = time_range(duration_ms, config.width, i);
        let (file, x, y) = grid_position(i, config);
        let path = grid_filename(file, config);
        let name = match file_name(path.as_str()) {
            Some(n) => n,
            None => path,
        };
        let c = cue(
            from,
            to,
            name.as_str(),
            x as u64,
            y as u64,
            config.thumbnail_width as u64,
            config.thumbnail_height as u64,
        );
        r.append(c.as_str());
        i = i + 1;
    }
    r
}

} // verus!
