//! The headless recorder's command line and its auto-stop.
//!
//! The `--stop-when` filter names the brain families to watch for extinction
//! before ending a film early: a comma-separated list of family names (ASCII
//! case-insensitive); a leading `!` or `not:` inverts it (watch every family
//! *except* those named). Numeric options are checked against the grammar
//! `str::parse` accepts and kept as text: the driver reads them as floats.

use vstd::prelude::*;
use crate::brain::{FAMILY_COUNT, family_label, families};
use crate::text::{
    chars_of, string_of, trimmed, trim_chars, eq_ignore_case, chars_eq_ignore_case, lower_chars,
    ascii_lower_seq, chars_eq, float_text, is_float_text, parse_unsigned, parse_bounded,
};

verus! {

/// The pieces of `s` between commas (`str::split(',')`): one more piece than
/// there are commas, empty pieces included.
pub open spec fn comma_pieces(s: Seq<char>) -> Seq<Seq<char>>
    decreases s.len(),
{
    if s.len() == 0 {
        seq![Seq::<char>::empty()]
    } else {
        let p = comma_pieces(s.drop_last());
        if s.last() == ',' {
            p.push(Seq::<char>::empty())
        } else {
            p.update(p.len() - 1, p.last().push(s.last()))
        }
    }
}

proof fn lemma_pieces_nonempty(s: Seq<char>)
    ensures
        comma_pieces(s).len() >= 1,
    decreases s.len(),
{
    if s.len() > 0 {
        lemma_pieces_nonempty(s.drop_last());
    }
}

/// Whether family `f` is the first family whose label equals `name` up to
/// ASCII case.
pub open spec fn names_family(name: Seq<char>, f: int) -> bool {
    &&& 0 <= f < FAMILY_COUNT
    &&& eq_ignore_case(family_label(f), name)
    &&& forall|g: int| 0 <= g < f ==> !eq_ignore_case(family_label(g), name)
}

/// Whether `name` is a family name (up to ASCII case).
pub open spec fn is_family_name(name: Seq<char>) -> bool {
    exists|f: int| 0 <= f < FAMILY_COUNT && eq_ignore_case(family_label(f), name)
}

/// Whether a piece of the list names no family: its trimmed text is non-empty
/// and matches none.
pub open spec fn unknown_piece(piece: Seq<char>) -> bool {
    trimmed(piece).len() > 0 && !is_family_name(trimmed(piece))
}

/// Whether some piece of `pieces` names family `f`.
pub open spec fn family_named(pieces: Seq<Seq<char>>, f: int) -> bool {
    exists|k: int| 0 <= k < pieces.len() && eq_ignore_case(family_label(f), trimmed(pieces[k]))
}

/// The list part of a spec and whether it is inverted.
pub open spec fn split_invert(spec: Seq<char>) -> (bool, Seq<char>) {
    if spec.len() >= 1 && spec[0] == '!' {
        (true, spec.skip(1))
    } else if spec.len() >= 4 && spec.take(4) == "not:"@ {
        (true, spec.skip(4))
    } else {
        (false, spec)
    }
}

/// The lowercase family names joined by `|` (`wander|hunter|grazer|sessile|mlp`).
pub open spec fn family_list() -> Seq<char> {
    ascii_lower_seq(family_label(0)) + "|"@ + ascii_lower_seq(family_label(1)) + "|"@
        + ascii_lower_seq(family_label(2)) + "|"@ + ascii_lower_seq(family_label(3)) + "|"@
        + ascii_lower_seq(family_label(4))
}

/// The error for an unknown family name.
pub open spec fn unknown_message(name: Seq<char>) -> Seq<char> {
    "unknown brain \""@ + name + "\" ("@ + family_list() + ")"@
}

fn find_family(name: &Vec<char>, labels: &Vec<Vec<char>>) -> (r: Option<usize>)
    requires
        labels.len() == FAMILY_COUNT,
        forall|f: int| 0 <= f < FAMILY_COUNT ==> (#[trigger] labels[f])@ == family_label(f),
    ensures
        match r {
            Some(f) => names_family(name@, f as int),
            None => !is_family_name(name@),
        },
{
    let mut f: usize = 0;
    while f < FAMILY_COUNT
        invariant
            f <= FAMILY_COUNT,
            labels.len() == FAMILY_COUNT,
            forall|g: int| 0 <= g < FAMILY_COUNT ==> (#[trigger] labels[g])@ == family_label(g),
            forall|g: int| 0 <= g < f ==> !eq_ignore_case(family_label(g), name@),
        decreases FAMILY_COUNT - f,
    {
        if chars_eq_ignore_case(&labels[f], name) {
            return Some(f);
        }
        f = f + 1;
    }
    None
}

fn split_commas(s: &Vec<char>) -> (pieces: Vec<Vec<char>>)
    ensures
        pieces@.len() == comma_pieces(s@).len(),
        forall|k: int| 0 <= k < pieces@.len() ==> (#[trigger] pieces@[k])@ == comma_pieces(s@)[k],
{
    let mut pieces: Vec<Vec<char>> = Vec::new();
    let mut cur: Vec<char> = Vec::new();
    let mut i: usize = 0;
    assert(s@.subrange(0, 0) =~= Seq::<char>::empty());
    while i < s.len()
        invariant
            i <= s.len(),
            pieces@.len() + 1 == comma_pieces(s@.subrange(0, i as int)).len(),
            forall|k: int|
                0 <= k < pieces@.len() ==> (#[trigger] pieces@[k])@ == comma_pieces(
                    s@.subrange(0, i as int),
                )[k],
            cur@ == comma_pieces(s@.subrange(0, i as int)).last(),
        decreases s.len() - i,
    {
        let ghost pre = s@.subrange(0, i as int);
        let ghost next = s@.subrange(0, i + 1);
        assert(next.drop_last() =~= pre);
        assert(next.last() == s@[i as int]);
        proof {
            lemma_pieces_nonempty(pre);
        }
        if s[i] == ',' {
            let mut done: Vec<char> = Vec::new();
            std::mem::swap(&mut done, &mut cur);
            pieces.push(done);
        } else {
            cur.push(s[i]);
        }
        i = i + 1;
    }
    assert(s@.subrange(0, s.len() as int) =~= s@);
    pieces.push(cur);
    pieces
}

fn family_labels() -> (v: Vec<Vec<char>>)
    ensures
        v.len() == FAMILY_COUNT,
        forall|f: int| 0 <= f < FAMILY_COUNT ==> (#[trigger] v[f])@ == family_label(f),
{
    let names = families();
    let mut v: Vec<Vec<char>> = Vec::new();
    let mut f: usize = 0;
    while f < FAMILY_COUNT
        invariant
            f <= FAMILY_COUNT,
            names.len() == FAMILY_COUNT,
            forall|g: int| 0 <= g < FAMILY_COUNT ==> (#[trigger] names[g])@ == family_label(g),
            v.len() == f,
            forall|g: int| 0 <= g < f ==> (#[trigger] v[g])@ == family_label(g),
        decreases FAMILY_COUNT - f,
    {
        v.push(chars_of(names[f].as_str()));
        f = f + 1;
    }
    v
}

fn unknown_error(name: &Vec<char>, labels: &Vec<Vec<char>>) -> (s: String)
    requires
        labels.len() == FAMILY_COUNT,
        forall|f: int| 0 <= f < FAMILY_COUNT ==> (#[trigger] labels[f])@ == family_label(f),
    ensures
        s@ == unknown_message(name@),
{
    let mut out: Vec<char> = chars_of("unknown brain \"");
    let mut k: usize = 0;
    let ghost prefix = out@;
    while k < name.len()
        invariant
            k <= name.len(),
            out@ == prefix + name@.subrange(0, k as int),
        decreases name.len() - k,
    {
        out.push(name[k]);
        k = k + 1;
    }
    assert(name@.subrange(0, name.len() as int) =~= name@);
    append_chars(&mut out, &chars_of("\" ("));
    let mut f: usize = 0;
    let ghost head = out@;
    while f < FAMILY_COUNT
        invariant
            f <= FAMILY_COUNT,
            labels.len() == FAMILY_COUNT,
            forall|g: int| 0 <= g < FAMILY_COUNT ==> (#[trigger] labels[g])@ == family_label(g),
            out@ == head + listed(f as int),
        decreases FAMILY_COUNT - f,
    {
        let ghost before = out@;
        if f > 0 {
            out.push('|');
        }
        let lower = lower_chars(&labels[f]);
        append_chars(&mut out, &lower);
        proof {
            reveal_strlit("|");
            if f > 0 {
                assert(listed(f + 1) == listed(f as int) + "|"@ + ascii_lower_seq(family_label(f as int)));
                assert("|"@ =~= seq!['|']);
                assert(out@ =~= before + seq!['|'] + lower@);
            } else {
                assert(listed(1) == ascii_lower_seq(family_label(0)));
                assert(listed(0) =~= Seq::<char>::empty());
            }
        }
        assert(out@ =~= head + listed(f + 1));
        f = f + 1;
    }
    append_chars(&mut out, &chars_of(")"));
    proof {
        reveal_strlit("|");
        reveal_with_fuel(listed, 6);
        assert(listed(5) =~= family_list());
    }
    assert(out@ =~= unknown_message(name@));
    string_of(&out)
}

/// The first `n` lowercase family names joined by `|`.
spec fn listed(n: int) -> Seq<char>
    decreases n,
{
    if n <= 0 {
        Seq::<char>::empty()
    } else if n == 1 {
        ascii_lower_seq(family_label(0))
    } else {
        listed(n - 1) + "|"@ + ascii_lower_seq(family_label(n - 1))
    }
}

fn append_chars(out: &mut Vec<char>, more: &Vec<char>)
    ensures
        final(out)@ == old(out)@ + more@,
{
    let mut k: usize = 0;
    let ghost start = out@;
    while k < more.len()
        invariant
            k <= more.len(),
            out@ == start + more@.subrange(0, k as int),
        decreases more.len() - k,
    {
        out.push(more[k]);
        k = k + 1;
    }
    assert(more@.subrange(0, more.len() as int) =~= more@);
}

/// The first piece of `sp` that names no family, if any.
pub open spec fn first_unknown(sp: Seq<Seq<char>>, k: int) -> bool {
    &&& 0 <= k < sp.len()
    &&& unknown_piece(sp[k])
    &&& forall|m: int| 0 <= m < k ==> !unknown_piece(sp[m])
}

fn scan_pieces(pieces: &Vec<Vec<char>>, labels: &Vec<Vec<char>>, Ghost(sp): Ghost<Seq<Seq<char>>>) -> (r:
    Result<[bool; FAMILY_COUNT], Vec<char>>)
    requires
        pieces@.len() == sp.len(),
        forall|m: int| 0 <= m < pieces@.len() ==> (#[trigger] pieces@[m])@ == sp[m],
        labels.len() == FAMILY_COUNT,
        forall|g: int| 0 <= g < FAMILY_COUNT ==> (#[trigger] labels[g])@ == family_label(g),
    ensures
        match r {
            Err(name) => exists|k: int| first_unknown(sp, k) && name@ == trimmed(sp[k]),
            Ok(mask) => (forall|k: int| 0 <= k < sp.len() ==> !unknown_piece(#[trigger] sp[k]))
                && forall|f: int| 0 <= f < FAMILY_COUNT ==> mask@[f] == family_named(sp, f),
        },
{
    let mut chosen = [false; FAMILY_COUNT];
    let mut k: usize = 0;
    while k < pieces.len()
        invariant
            k <= pieces.len(),
            pieces@.len() == sp.len(),
            forall|m: int| 0 <= m < pieces@.len() ==> (#[trigger] pieces@[m])@ == sp[m],
            labels.len() == FAMILY_COUNT,
            forall|g: int| 0 <= g < FAMILY_COUNT ==> (#[trigger] labels[g])@ == family_label(g),
            forall|m: int| 0 <= m < k ==> !unknown_piece(#[trigger] sp[m]),
            forall|f: int|
                0 <= f < FAMILY_COUNT ==> chosen@[f] == family_named(sp.take(k as int), f),
        decreases pieces.len() - k,
    {
        let name = trim_chars(&pieces[k]);
        assert(name@ == trimmed(sp[k as int]));
        let ghost pre = sp.take(k as int);
        let ghost next = sp.take(k + 1);
        assert(next =~= pre.push(sp[k as int]));
        if name.len() > 0 {
            match find_family(&name, labels) {
                Some(f) => {
                    let ghost before = chosen@;
                    chosen[f] = true;
                    proof {
                        lemma_mask_step(pre, sp[k as int], before, chosen@, f as int);
                    }
                },
                None => {
                    assert(first_unknown(sp, k as int));
                    return Err(name);
                },
            }
        } else {
            proof {
                lemma_mask_step_none(pre, sp[k as int], chosen@);
            }
        }
        k = k + 1;
    }
    assert(sp.take(sp.len() as int) =~= sp);
    Ok(chosen)
}

proof fn lemma_mask_step(pre: Seq<Seq<char>>, piece: Seq<char>, before: Seq<bool>, after: Seq<bool>, f: int)
    requires
        before.len() == FAMILY_COUNT,
        forall|g: int| 0 <= g < FAMILY_COUNT ==> before[g] == family_named(pre, g),
        names_family(trimmed(piece), f),
        after == before.update(f, true),
    ensures
        forall|g: int| 0 <= g < FAMILY_COUNT ==> after[g] == family_named(pre.push(piece), g),
{
    let next = pre.push(piece);
    assert forall|g: int| 0 <= g < FAMILY_COUNT implies after[g] == family_named(next, g) by {
        if family_named(pre, g) {
            let m = choose|m: int| 0 <= m < pre.len() && eq_ignore_case(family_label(g), trimmed(pre[m]));
            assert(next[m] == pre[m]);
        }
        if g == f {
            assert(next[pre.len() as int] == piece);
        } else {
            if eq_ignore_case(family_label(g), trimmed(piece)) {
                lemma_eq_ignore_case_unique(family_label(g), family_label(f), trimmed(piece));
                lemma_labels_distinct(g, f);
            }
            if family_named(next, g) {
                let m = choose|m: int| 0 <= m < next.len() && eq_ignore_case(family_label(g), trimmed(next[m]));
                if m < pre.len() {
                    assert(next[m] == pre[m]);
                }
            }
        }
    }
}

proof fn lemma_mask_step_none(pre: Seq<Seq<char>>, piece: Seq<char>, mask: Seq<bool>)
    requires
        mask.len() == FAMILY_COUNT,
        forall|g: int| 0 <= g < FAMILY_COUNT ==> mask[g] == family_named(pre, g),
        trimmed(piece).len() == 0,
    ensures
        forall|g: int| 0 <= g < FAMILY_COUNT ==> mask[g] == family_named(pre.push(piece), g),
{
    let next = pre.push(piece);
    assert forall|g: int| 0 <= g < FAMILY_COUNT implies mask[g] == family_named(next, g) by {
        assert(!eq_ignore_case(family_label(g), trimmed(piece))) by {
            assert(ascii_lower_seq(trimmed(piece)).len() == 0);
            assert(ascii_lower_seq(family_label(g)).len() > 0);
        }
        if family_named(pre, g) {
            let m = choose|m: int| 0 <= m < pre.len() && eq_ignore_case(family_label(g), trimmed(pre[m]));
            assert(next[m] == pre[m]);
        }
        if family_named(next, g) {
            let m = choose|m: int| 0 <= m < next.len() && eq_ignore_case(family_label(g), trimmed(next[m]));
            if m < pre.len() {
                assert(next[m] == pre[m]);
            }
        }
    }
}

/// What a `--stop-when` spec gives: the per-family watch mask (every named
/// family, or every other one when the spec is inverted), or the error for the
/// first piece that names no family, or for a spec that names none.
pub open spec fn brain_filter(spec: Seq<char>) -> Result<Seq<bool>, Seq<char>> {
    let (invert, list) = split_invert(spec);
    let pieces = comma_pieces(list);
    if exists|k: int| 0 <= k < pieces.len() && unknown_piece(#[trigger] pieces[k]) {
        let k = choose|k: int|
            0 <= k < pieces.len() && unknown_piece(#[trigger] pieces[k]) && forall|m: int|
                0 <= m < k ==> !unknown_piece(pieces[m]);
        Err(unknown_message(trimmed(pieces[k])))
    } else if forall|f: int| 0 <= f < FAMILY_COUNT ==> !family_named(pieces, f) {
        Err("no brain named"@)
    } else {
        Ok(Seq::new(FAMILY_COUNT as nat, |f: int| family_named(pieces, f) != invert))
    }
}

/// Parses a `--stop-when` spec into a per-family "watch this for extinction"
/// mask (`true` at the family's index). Fails with the first name that is no
/// family, or when no family is named.
pub fn parse_brain_filter(spec: &str) -> (r: Result<[bool; FAMILY_COUNT], String>)
    ensures
        match brain_filter(spec@) {
            Ok(m) => r matches Ok(mask) && mask@ == m,
            Err(e) => r matches Err(msg) && msg@ == e,
        },
{
    let all = chars_of(spec);
    let n = all.len();
    let not_prefix = chars_of("not:");
    proof {
        reveal_strlit("not:");
    }
    let (invert, start) = if n >= 1 && all[0] == '!' {
        (true, 1usize)
    } else if n >= 4 && all[0] == not_prefix[0] && all[1] == not_prefix[1] && all[2] == not_prefix[2]
        && all[3] == not_prefix[3] {
        assert(all@.take(4) =~= "not:"@);
        (true, 4usize)
    } else {
        proof {
            if n >= 4 {
                if all@.take(4) == "not:"@ {
                    assert(all@.take(4)[0] == all@[0]);
                    assert(all@.take(4)[3] == all@[3]);
                }
            }
        }
        (false, 0usize)
    };
    let mut list: Vec<char> = Vec::new();
    let mut i: usize = start;
    while i < n
        invariant
            start <= i <= n,
            n == all@.len(),
            list@ == all@.subrange(start as int, i as int),
        decreases n - i,
    {
        list.push(all[i]);
        i = i + 1;
    }
    let ghost split = split_invert(spec@);
    assert(list@ =~= split.1);
    assert(invert == split.0);
    let pieces = split_commas(&list);
    let ghost sp = comma_pieces(split.1);
    let labels = family_labels();
    let scanned = scan_pieces(&pieces, &labels, Ghost(sp));
    let mut chosen = match scanned {
        Err(name) => {
            return Err(unknown_error(&name, &labels));
        },
        Ok(mask) => mask,
    };
    let ghost mask = chosen@;
    let mut any = false;
    let mut f: usize = 0;
    while f < FAMILY_COUNT
        invariant
            f <= FAMILY_COUNT,
            chosen@ == mask,
            any == exists|g: int| 0 <= g < f && chosen@[g],
        decreases FAMILY_COUNT - f,
    {
        any = any || chosen[f];
        f = f + 1;
    }
    if !any {
        proof {
            reveal_strlit("no brain named");
        }
        return Err(String::from_str("no brain named"));
    }
    let ghost named = chosen@;
    proof {
        let g = choose|g: int| 0 <= g < FAMILY_COUNT && chosen@[g];
        assert(family_named(sp, g));
    }
    if invert {
        let mut f: usize = 0;
        let ghost base = chosen@;
        while f < FAMILY_COUNT
            invariant
                f <= FAMILY_COUNT,
                base.len() == FAMILY_COUNT,
                chosen@.len() == FAMILY_COUNT,
                forall|g: int| 0 <= g < f ==> chosen@[g] == !base[g],
                forall|g: int| f <= g < FAMILY_COUNT ==> chosen@[g] == base[g],
            decreases FAMILY_COUNT - f,
        {
            chosen[f] = !chosen[f];
            f = f + 1;
        }
    }
    assert(forall|g: int| 0 <= g < FAMILY_COUNT ==> chosen@[g] == (named[g] != invert));
    assert(chosen@ =~= Seq::new(FAMILY_COUNT as nat, |f: int| family_named(sp, f) != invert));
    Ok(chosen)
}

/// The family labels are pairwise distinct up to ASCII case.
proof fn lemma_labels_distinct(f: int, g: int)
    requires
        0 <= f < FAMILY_COUNT,
        0 <= g < FAMILY_COUNT,
        f != g,
    ensures
        !eq_ignore_case(family_label(f), family_label(g)),
{
    let a = ascii_lower_seq(family_label(f));
    let b = ascii_lower_seq(family_label(g));
    if a == b {
        assert(a.len() == family_label(f).len());
        assert(b.len() == family_label(g).len());
        assert(a[0] == b[0]);
        assert(a[0] == crate::text::ascii_lower(family_label(f)[0]));
        assert(b[0] == crate::text::ascii_lower(family_label(g)[0]));
    }
}

/// Two names equal to the same string up to ASCII case are equal up to ASCII
/// case to each other.
proof fn lemma_eq_ignore_case_unique(a: Seq<char>, b: Seq<char>, name: Seq<char>)
    requires
        eq_ignore_case(a, name),
        eq_ignore_case(b, name),
    ensures
        eq_ignore_case(a, b),
{
}


// ---------------------------------------------------------------------------
// The command line
// ---------------------------------------------------------------------------

/// What the recorder's command line sets, the numeric values as their text.
pub struct SettingsModel {
    pub scenario: Option<Seq<char>>,
    pub out: Seq<char>,
    pub fps: Seq<char>,
    pub seconds: Seq<char>,
    pub width: Option<u32>,
    pub height: Option<u32>,
    pub select: Seq<char>,
    pub select_interval: Seq<char>,
    pub hud: bool,
    pub hud_interval: Seq<char>,
    pub nutrients: bool,
    pub stop_when: Option<Seq<bool>>,
    pub stop_after: Seq<char>,
}

/// Why a command line is refused, as text.
pub enum ArgErrorModel {
    MissingValue(Seq<char>),
    BadNumber(Seq<char>),
    UnknownSelectMode(Seq<char>),
    StopWhen(Seq<char>),
    UnknownOption(Seq<char>),
}

/// Recording parameters read from the command line. The numeric options are
/// kept as the text given (or the default's), already checked to read as a
/// number of their type.
pub struct RecordSettings {
    /// Scenario path: the first positional argument.
    pub scenario: Option<String>,
    /// Output video file.
    pub out: String,
    /// Frames per second (a float).
    pub fps: String,
    /// Film length in seconds (a float).
    pub seconds: String,
    /// Explicit frame width, otherwise resolved from `hud`.
    pub width: Option<u32>,
    /// Explicit frame height, otherwise resolved from `hud`.
    pub height: Option<u32>,
    /// Roll mode of the automatic selection.
    pub select: String,
    /// Seconds between two selection changes (a float).
    pub select_interval: String,
    /// Overlay the visualizer (9:16 composition).
    pub hud: bool,
    /// Seconds between rotations of the visualizer's sections (a float).
    pub hud_interval: String,
    /// Overlay the nutrient heatmap.
    pub nutrients: bool,
    /// Which brain families to watch for extinction, if any.
    pub stop_when: Option<[bool; FAMILY_COUNT]>,
    /// Seconds to keep filming after that extinction (a float).
    pub stop_after: String,
}

/// Why a command line is refused.
pub enum RecordArgError {
    /// An option that takes a value came last.
    MissingValue(String),
    /// A numeric option's value does not read as a number; the message says
    /// which option and what was expected.
    BadNumber(String),
    /// `--select` named no selection mode.
    UnknownSelectMode(String),
    /// `--stop-when` was refused, with the filter's message.
    StopWhen(String),
    /// An argument starting with `-` that is no option.
    UnknownOption(String),
}

/// An optional string by its characters.
pub open spec fn opt_view(o: Option<String>) -> Option<Seq<char>> {
    match o {
        Some(s) => Some(s@),
        None => None,
    }
}

/// An optional family mask as a sequence.
pub open spec fn mask_view(o: Option<[bool; FAMILY_COUNT]>) -> Option<Seq<bool>> {
    match o {
        Some(m) => Some(m@),
        None => None,
    }
}

impl View for RecordSettings {
    type V = SettingsModel;

    open spec fn view(&self) -> SettingsModel {
        SettingsModel {
            scenario: opt_view(self.scenario),
            out: self.out@,
            fps: self.fps@,
            seconds: self.seconds@,
            width: self.width,
            height: self.height,
            select: self.select@,
            select_interval: self.select_interval@,
            hud: self.hud,
            hud_interval: self.hud_interval@,
            nutrients: self.nutrients,
            stop_when: mask_view(self.stop_when),
            stop_after: self.stop_after@,
        }
    }
}

impl View for RecordArgError {
    type V = ArgErrorModel;

    open spec fn view(&self) -> ArgErrorModel {
        match self {
            RecordArgError::MissingValue(a) => ArgErrorModel::MissingValue(a@),
            RecordArgError::BadNumber(m) => ArgErrorModel::BadNumber(m@),
            RecordArgError::UnknownSelectMode(v) => ArgErrorModel::UnknownSelectMode(v@),
            RecordArgError::StopWhen(m) => ArgErrorModel::StopWhen(m@),
            RecordArgError::UnknownOption(a) => ArgErrorModel::UnknownOption(a@),
        }
    }
}

/// The settings before any argument: no scenario, `outputs/out.mp4`, 30 fps,
/// 61 seconds, size from the HUD, the `vanguard` selection every 4 seconds,
/// the HUD on (sections every 6 seconds), no heatmap, no auto-stop, and 3
/// seconds of grace.
pub open spec fn default_settings() -> SettingsModel {
    SettingsModel {
        scenario: None,
        out: "outputs/out.mp4"@,
        fps: "30"@,
        seconds: "61"@,
        width: None,
        height: None,
        select: "vanguard"@,
        select_interval: "4"@,
        hud: true,
        hud_interval: "6"@,
        nutrients: false,
        stop_when: None,
        stop_after: "3"@,
    }
}

/// The selection modes `--select` accepts.
pub open spec fn selection_mode(v: Seq<char>) -> bool {
    v == "off"@ || v == "cycle"@ || v == "active"@ || v == "species"@ || v == "vanguard"@
}

/// Whether option `a` takes the next argument as its value.
pub open spec fn takes_value(a: Seq<char>) -> bool {
    ||| a == "--out"@
    ||| a == "-o"@
    ||| a == "--fps"@
    ||| a == "--seconds"@
    ||| a == "-s"@
    ||| a == "--width"@
    ||| a == "-w"@
    ||| a == "--height"@
    ||| a == "-h"@
    ||| a == "--hud-interval"@
    ||| a == "--select"@
    ||| a == "--select-interval"@
    ||| a == "--stop-when"@
    ||| a == "--stop-after"@
}

/// A float option set to `v`, or the error `msg` when `v` reads as no number.
pub open spec fn float_option(ok: SettingsModel, v: Seq<char>, msg: Seq<char>) -> Result<
    SettingsModel,
    ArgErrorModel,
> {
    if float_text(v) {
        Ok(ok)
    } else {
        Err(ArgErrorModel::BadNumber(msg))
    }
}

/// The settings `s` after option `a` (one that takes a value) with value `v`.
pub open spec fn with_value(s: SettingsModel, a: Seq<char>, v: Seq<char>) -> Result<
    SettingsModel,
    ArgErrorModel,
> {
    if a == "--out"@ || a == "-o"@ {
        Ok(SettingsModel { out: v, ..s })
    } else if a == "--fps"@ {
        float_option(SettingsModel { fps: v, ..s }, v, "--fps: number expected"@)
    } else if a == "--seconds"@ || a == "-s"@ {
        float_option(SettingsModel { seconds: v, ..s }, v, "--seconds: number expected"@)
    } else if a == "--width"@ || a == "-w"@ {
        match parse_unsigned(v, u32::MAX as nat) {
            Some(n) => Ok(SettingsModel { width: Some(n as u32), ..s }),
            None => Err(ArgErrorModel::BadNumber("--width: integer expected"@)),
        }
    } else if a == "--height"@ || a == "-h"@ {
        match parse_unsigned(v, u32::MAX as nat) {
            Some(n) => Ok(SettingsModel { height: Some(n as u32), ..s }),
            None => Err(ArgErrorModel::BadNumber("--height: integer expected"@)),
        }
    } else if a == "--hud-interval"@ {
        float_option(
            SettingsModel { hud_interval: v, ..s },
            v,
            "--hud-interval: number (seconds) expected"@,
        )
    } else if a == "--select"@ {
        if selection_mode(v) {
            Ok(SettingsModel { select: v, ..s })
        } else {
            Err(ArgErrorModel::UnknownSelectMode(v))
        }
    } else if a == "--select-interval"@ {
        float_option(
            SettingsModel { select_interval: v, ..s },
            v,
            "--select-interval: number (seconds) expected"@,
        )
    } else if a == "--stop-when"@ {
        match brain_filter(v) {
            Ok(m) => Ok(SettingsModel { stop_when: Some(m), ..s }),
            Err(e) => Err(ArgErrorModel::StopWhen(e)),
        }
    } else {
        float_option(
            SettingsModel { stop_after: v, ..s },
            v,
            "--stop-after: number (seconds) expected"@,
        )
    }
}

/// The settings after reading `args` from position `i` on, starting from `s`:
/// options in order (a later one overriding an earlier one), the first
/// positional argument as the scenario (later ones ignored), and the first
/// refusal ending the reading.
pub open spec fn settings_walk(args: Seq<Seq<char>>, i: int, s: SettingsModel) -> Result<
    SettingsModel,
    ArgErrorModel,
>
    decreases args.len() - i,
{
    if i < 0 || i >= args.len() {
        Ok(s)
    } else {
        let a = args[i];
        if takes_value(a) {
            if i + 1 >= args.len() {
                Err(ArgErrorModel::MissingValue(a))
            } else {
                match with_value(s, a, args[i + 1]) {
                    Ok(t) => settings_walk(args, i + 2, t),
                    Err(e) => Err(e),
                }
            }
        } else if a == "--hud"@ {
            settings_walk(args, i + 1, SettingsModel { hud: true, ..s })
        } else if a == "--no-hud"@ {
            settings_walk(args, i + 1, SettingsModel { hud: false, ..s })
        } else if a == "--nutrients"@ {
            settings_walk(args, i + 1, SettingsModel { nutrients: true, ..s })
        } else if a.len() > 0 && a[0] == '-' {
            Err(ArgErrorModel::UnknownOption(a))
        } else if s.scenario is None {
            settings_walk(args, i + 1, SettingsModel { scenario: Some(a), ..s })
        } else {
            settings_walk(args, i + 1, s)
        }
    }
}

/// `--select` accepts each of the five documented selection modes (`off`,
/// `cycle`, `active`, `species`, `vanguard`) and stores it as given, whatever
/// the settings read so far, and a command line naming a scenario and one of
/// them parses to the defaults with that scenario and that mode.
pub proof fn lemma_select_accepts_every_mode(s: SettingsModel, w: Seq<char>)
    requires
        w == "off"@ || w == "cycle"@ || w == "active"@ || w == "species"@ || w == "vanguard"@,
    ensures
        with_value(s, "--select"@, w) == Ok::<SettingsModel, ArgErrorModel>(SettingsModel { select: w, ..s }),
        settings_walk(seq!["--select"@, w], 0, s) == Ok::<SettingsModel, ArgErrorModel>(
            SettingsModel { select: w, ..s },
        ),
        settings_walk(seq!["reef.ron"@, "--select"@, w], 0, default_settings()) == Ok::<
            SettingsModel,
            ArgErrorModel,
        >(SettingsModel { scenario: Some("reef.ron"@), select: w, ..default_settings() }),
{
    reveal_strlit("--select");
    reveal_strlit("--out");
    reveal_strlit("-o");
    reveal_strlit("--fps");
    reveal_strlit("--seconds");
    reveal_strlit("-s");
    reveal_strlit("--width");
    reveal_strlit("-w");
    reveal_strlit("--height");
    reveal_strlit("-h");
    reveal_strlit("--hud-interval");
    reveal_strlit("--select-interval");
    reveal_strlit("--stop-when");
    reveal_strlit("--stop-after");
    reveal_strlit("--hud");
    reveal_strlit("--no-hud");
    reveal_strlit("--nutrients");
    reveal_strlit("reef.ron");
    assert("--select"@[2] != "--height"@[2]);
    assert("--select"@ != "--height"@);
    let t = SettingsModel { select: w, ..s };
    assert(with_value(s, "--select"@, w) == Ok::<SettingsModel, ArgErrorModel>(t));
    let args = seq!["--select"@, w];
    assert(takes_value(args[0]));
    assert(settings_walk(args, 2, t) == Ok::<SettingsModel, ArgErrorModel>(t));
    let d = default_settings();
    let args3 = seq!["reef.ron"@, "--select"@, w];
    let d1 = SettingsModel { scenario: Some("reef.ron"@), ..d };
    assert(args3[0][0] == 'r');
    assert("--out"@[0] == '-' && "-o"@[0] == '-' && "--fps"@[0] == '-' && "--seconds"@[0] == '-');
    assert("-s"@[0] == '-' && "--width"@[0] == '-' && "-w"@[0] == '-' && "--height"@[0] == '-');
    assert("-h"@[0] == '-' && "--hud-interval"@[0] == '-' && "--select"@[0] == '-');
    assert("--select-interval"@[0] == '-' && "--stop-when"@[0] == '-' && "--stop-after"@[0] == '-');
    assert("--hud"@[0] == '-' && "--no-hud"@[0] == '-' && "--nutrients"@[0] == '-');
    assert(!takes_value(args3[0]));
    assert(args3[0] != "--hud"@);
    assert(args3[0] != "--no-hud"@);
    assert(args3[0] != "--nutrients"@);
    assert(args3[0][0] != '-');
    assert(settings_walk(args3, 0, d) == settings_walk(args3, 1, d1));
    let t1 = SettingsModel { select: w, ..d1 };
    assert(with_value(d1, "--select"@, w) == Ok::<SettingsModel, ArgErrorModel>(t1));
    assert(takes_value(args3[1]));
    assert(settings_walk(args3, 3, t1) == Ok::<SettingsModel, ArgErrorModel>(t1));
}

/// `--select` refuses every word but the five selection modes, naming it.
pub proof fn lemma_select_refuses_other_words(s: SettingsModel, w: Seq<char>)
    requires
        w != "off"@ && w != "cycle"@ && w != "active"@ && w != "species"@ && w != "vanguard"@,
    ensures
        with_value(s, "--select"@, w) == Err::<SettingsModel, ArgErrorModel>(ArgErrorModel::UnknownSelectMode(w)),
{
    reveal_strlit("--select");
    reveal_strlit("--out");
    reveal_strlit("-o");
    reveal_strlit("--fps");
    reveal_strlit("--seconds");
    reveal_strlit("-s");
    reveal_strlit("--width");
    reveal_strlit("-w");
    reveal_strlit("--height");
    reveal_strlit("-h");
    reveal_strlit("--hud-interval");
    assert("--select"@[2] != "--height"@[2]);
    assert("--select"@ != "--height"@);
    assert("--select"@.len() == 8);
    assert("--out"@.len() == 5);
    assert("-o"@.len() == 2);
    assert("--fps"@.len() == 5);
    assert("--seconds"@.len() == 9);
    assert("-s"@.len() == 2);
    assert("--width"@.len() == 7);
    assert("-w"@.len() == 2);
    assert("-h"@.len() == 2);
    assert("--hud-interval"@.len() == 14);
    assert(!selection_mode(w));
    assert("--select"@ != "--out"@ && "--select"@ != "-o"@ && "--select"@ != "--fps"@);
    assert("--select"@ != "--seconds"@ && "--select"@ != "-s"@ && "--select"@ != "--width"@);
    assert("--select"@ != "-w"@ && "--select"@ != "-h"@ && "--select"@ != "--hud-interval"@);
}

/// The arguments as character sequences.
pub open spec fn arg_texts(args: Seq<String>) -> Seq<Seq<char>> {
    args.map_values(|a: String| a@)
}

/// Whether `a` spells `w`.
fn is_word(a: &str, w: &str) -> (b: bool)
    ensures
        b == (a@ == w@),
{
    let x = chars_of(a);
    let y = chars_of(w);
    chars_eq(&x, &y)
}

fn text(s: &str) -> (t: String)
    ensures
        t@ == s@,
{
    String::from_str(s)
}

impl RecordSettings {
    /// The settings before any argument (see [`default_settings`]).
    pub fn defaults() -> (s: RecordSettings)
        ensures
            s@ == default_settings(),
    {
        RecordSettings {
            scenario: None,
            out: text("outputs/out.mp4"),
            fps: text("30"),
            seconds: text("61"),
            width: None,
            height: None,
            select: text("vanguard"),
            select_interval: text("4"),
            hud: true,
            hud_interval: text("6"),
            nutrients: false,
            stop_when: None,
            stop_after: text("3"),
        }
    }

    /// Sets a float option to `v` once `v` reads as a number.
    fn set_float(slot: &mut String, v: &str, msg: &str) -> (r: Result<(), RecordArgError>)
        ensures
            float_text(v@) ==> r is Ok && final(slot)@ == v@,
            !float_text(v@) ==> (r matches Err(e) && e@ == ArgErrorModel::BadNumber(msg@)),
    {
        let cs = chars_of(v);
        if is_float_text(&cs) {
            *slot = text(v);
            Ok(())
        } else {
            Err(RecordArgError::BadNumber(text(msg)))
        }
    }

    /// Applies option `a`, which takes a value, with value `v`.
    fn set(&mut self, a: &str, v: &str) -> (r: Result<(), RecordArgError>)
        requires
            takes_value(a@),
        ensures
            match with_value(old(self)@, a@, v@) {
                Ok(m) => r is Ok && final(self)@ == m,
                Err(e) => r matches Err(x) && x@ == e,
            },
    {
        if is_word(a, "--out") || is_word(a, "-o") {
            self.out = text(v);
            Ok(())
        } else if is_word(a, "--fps") {
            Self::set_float(&mut self.fps, v, "--fps: number expected")
        } else if is_word(a, "--seconds") || is_word(a, "-s") {
            Self::set_float(&mut self.seconds, v, "--seconds: number expected")
        } else if is_word(a, "--width") || is_word(a, "-w") {
            match parse_bounded(&chars_of(v), 4294967295) {
                Some(n) => {
                    self.width = Some(n as u32);
                    Ok(())
                },
                None => Err(RecordArgError::BadNumber(text("--width: integer expected"))),
            }
        } else if is_word(a, "--height") || is_word(a, "-h") {
            match parse_bounded(&chars_of(v), 4294967295) {
                Some(n) => {
                    self.height = Some(n as u32);
                    Ok(())
                },
                None => Err(RecordArgError::BadNumber(text("--height: integer expected"))),
            }
        } else if is_word(a, "--hud-interval") {
            Self::set_float(&mut self.hud_interval, v, "--hud-interval: number (seconds) expected")
        } else if is_word(a, "--select") {
            if is_word(v, "off") || is_word(v, "cycle") || is_word(v, "active") || is_word(
                v,
                "species",
            ) || is_word(v, "vanguard") {
                self.select = text(v);
                Ok(())
            } else {
                Err(RecordArgError::UnknownSelectMode(text(v)))
            }
        } else if is_word(a, "--select-interval") {
            Self::set_float(
                &mut self.select_interval,
                v,
                "--select-interval: number (seconds) expected",
            )
        } else if is_word(a, "--stop-when") {
            match parse_brain_filter(v) {
                Ok(m) => {
                    self.stop_when = Some(m);
                    Ok(())
                },
                Err(e) => Err(RecordArgError::StopWhen(e)),
            }
        } else {
            Self::set_float(&mut self.stop_after, v, "--stop-after: number (seconds) expected")
        }
    }

    /// Reads the recorder's command line (the arguments after the program's
    /// name): `[scenario.ron] [--out f.mp4] [--fps N] [--seconds S] [--width W]
    /// [--height H] [--select MODE] [--select-interval S] [--hud | --no-hud]
    /// [--hud-interval S] [--nutrients] [--stop-when BRAINS] [--stop-after S]`.
    pub fn parse(args: &Vec<String>) -> (r: Result<RecordSettings, RecordArgError>)
        ensures
            match settings_walk(arg_texts(args@), 0, default_settings()) {
                Ok(m) => r matches Ok(s) && s@ == m,
                Err(e) => r matches Err(x) && x@ == e,
            },
    {
        let ghost all = arg_texts(args@);
        let mut s = RecordSettings::defaults();
        let mut i: usize = 0;
        while i < args.len()
            invariant
                i <= args@.len(),
                all == arg_texts(args@),
                settings_walk(all, 0, default_settings()) == settings_walk(all, i as int, s@),
            decreases args.len() - i,
        {
            let a = args[i].as_str();
            assert(all[i as int] == a@);
            let value_option = is_word(a, "--out") || is_word(a, "-o") || is_word(a, "--fps")
                || is_word(a, "--seconds") || is_word(a, "-s") || is_word(a, "--width") || is_word(
                a,
                "-w",
            ) || is_word(a, "--height") || is_word(a, "-h") || is_word(a, "--hud-interval")
                || is_word(a, "--select") || is_word(a, "--select-interval") || is_word(
                a,
                "--stop-when",
            ) || is_word(a, "--stop-after");
            if value_option {
                if i + 1 >= args.len() {
                    return Err(RecordArgError::MissingValue(text(a)));
                }
                let v = args[i + 1].as_str();
                assert(all[i + 1] == v@);
                match s.set(a, v) {
                    Ok(()) => {},
                    Err(e) => {
                        return Err(e);
                    },
                }
                i = i + 2;
            } else if is_word(a, "--hud") {
                s.hud = true;
                i = i + 1;
            } else if is_word(a, "--no-hud") {
                s.hud = false;
                i = i + 1;
            } else if is_word(a, "--nutrients") {
                s.nutrients = true;
                i = i + 1;
            } else {
                let cs = chars_of(a);
                if cs.len() > 0 && cs[0] == '-' {
                    return Err(RecordArgError::UnknownOption(text(a)));
                }
                if s.scenario.is_none() {
                    s.scenario = Some(text(a));
                }
                i = i + 1;
            }
        }
        Ok(s)
    }
}

/// The frame size: the explicit width and height when given, otherwise 9:16
/// portrait (1080 × 1920) with the visualizer overlaid, square (1080 × 1080)
/// without.
pub fn frame_size(hud: bool, width: Option<u32>, height: Option<u32>) -> (r: (u32, u32))
    ensures
        r.0 == (match width {
            Some(w) => w,
            None => 1080,
        }),
        r.1 == (match height {
            Some(h) => h,
            None => if hud {
                1920
            } else {
                1080
            },
        }),
{
    let (dw, dh): (u32, u32) = if hud {
        (1080, 1920)
    } else {
        (1080, 1080)
    };
    let w = match width {
        Some(w) => w,
        None => dw,
    };
    let h = match height {
        Some(h) => h,
        None => dh,
    };
    (w, h)
}

// ---------------------------------------------------------------------------
// Auto-stop
// ---------------------------------------------------------------------------

/// The auto-stop's state: which families to watch, how many frames to keep
/// filming after their extinction, whether any was ever seen alive, and
/// whether the stop has fired (it fires once).
#[derive(Clone, Copy, Debug)]
pub struct AutoStop {
    pub watched: [bool; FAMILY_COUNT],
    pub grace: u32,
    pub seen_alive: bool,
    pub fired: bool,
}

/// Whether some living agent (given by its brain family) is watched.
pub open spec fn any_watched(watched: Seq<bool>, living: Seq<usize>) -> bool {
    exists|i: int| 0 <= i < living.len() && watched[living[i] as int]
}

/// `a + b`, saturating at `u32::MAX`.
pub open spec fn saturating_sum(a: u32, b: u32) -> u32 {
    if a + b > u32::MAX {
        u32::MAX
    } else {
        (a + b) as u32
    }
}

impl AutoStop {
    /// An armed auto-stop over the `watched` families, `grace` frames after.
    pub fn new(watched: [bool; FAMILY_COUNT], grace: u32) -> (a: AutoStop)
        ensures
            a == (AutoStop { watched, grace, seen_alive: false, fired: false }),
    {
        AutoStop { watched, grace, seen_alive: false, fired: false }
    }

    /// One frame's check, before the frame is captured. `living` holds the
    /// brain family of every living agent, `spawned` the frames requested so
    /// far, `frames` the planned total. While a watched family lives, it is
    /// marked as seen; once none lives after one was seen, the plan is cut to
    /// `grace` frames from now (never lengthened) and the stop fires, for
    /// good. Returns the planned total.
    pub fn observe(&mut self, living: &Vec<usize>, spawned: u32, frames: u32) -> (r: u32)
        requires
            forall|i: int| 0 <= i < living@.len() ==> #[trigger] living@[i] < FAMILY_COUNT,
        ensures
            final(self).watched == old(self).watched,
            final(self).grace == old(self).grace,
            old(self).fired ==> *final(self) == *old(self) && r == frames,
            !old(self).fired && any_watched(old(self).watched@, living@) ==> *final(self) == (AutoStop {
                seen_alive: true,
                ..*old(self)
            }) && r == frames,
            !old(self).fired && !any_watched(old(self).watched@, living@) && !old(self).seen_alive
                ==> *final(self) == *old(self) && r == frames,
            !old(self).fired && !any_watched(old(self).watched@, living@) && old(self).seen_alive
                ==> *final(self) == (AutoStop { fired: true, ..*old(self) }) && r == (if frames
                < saturating_sum(spawned, old(self).grace) {
                frames
            } else {
                saturating_sum(spawned, old(self).grace)
            }),
    {
        if self.fired {
            return frames;
        }
        let mut k: usize = 0;
        while k < living.len()
            invariant
                k <= living@.len(),
                *self == *old(self),
                !old(self).fired,
                forall|i: int| 0 <= i < living@.len() ==> #[trigger] living@[i] < FAMILY_COUNT,
                forall|i: int| 0 <= i < k ==> !self.watched@[#[trigger] living@[i] as int],
            decreases living.len() - k,
        {
            if self.watched[living[k]] {
                self.seen_alive = true;
                return frames;
            }
            k = k + 1;
        }
        if !self.seen_alive {
            return frames;
        }
        let target = spawned.saturating_add(self.grace);
        self.fired = true;
        if frames < target {
            frames
        } else {
            target
        }
    }
}


/// The watched families' names, joined by commas, in family order.
pub open spec fn watched_list(mask: Seq<bool>, n: nat) -> Seq<char>
    decreases n,
{
    if n == 0 {
        Seq::empty()
    } else {
        let prev = watched_list(mask, (n - 1) as nat);
        if mask[n - 1] {
            if prev.len() == 0 {
                family_label(n - 1)
            } else {
                prev + ","@ + family_label(n - 1)
            }
        } else {
            prev
        }
    }
}

/// The names of the watched families, comma-separated, for the recorder's
/// summary line (`Hunter,MLP`).
pub fn watched_names(mask: &[bool; FAMILY_COUNT]) -> (s: String)
    ensures
        s@ == watched_list(mask@, FAMILY_COUNT as nat),
{
    let names = families();
    let mut s = String::new();
    let mut f: usize = 0;
    while f < FAMILY_COUNT
        invariant
            f <= FAMILY_COUNT,
            names.len() == FAMILY_COUNT,
            forall|i: int| 0 <= i < FAMILY_COUNT ==> (#[trigger] names[i])@ == family_label(i),
            s@ == watched_list(mask@, f as nat),
        decreases FAMILY_COUNT - f,
    {
        if mask[f] {
            proof {
                assert(family_label(f as int).len() > 0);
            }
            if s.unicode_len() > 0 {
                s.append(",");
            }
            s.append(names[f].as_str());
        }
        f = f + 1;
    }
    s
}

} // verus!
