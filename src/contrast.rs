//! WCAG contrast between two colours.
//!
//! The lightness of a colour is the HSL lightness `(max + min) / 2` of its
//! channels, taken over `0..=255`. It is kept as the integer `max + min`, so
//! the lightness is that value divided by 510. The WCAG contrast ratio
//! `(L_hi + 0.05) / (L_lo + 0.05)` is then exactly
//! `(2 * s_hi + 51) / (2 * s_lo + 51)` where `s` is `max + min`.

use vstd::prelude::*;

verus! {

/// A colour as its red, green and blue channels.
pub type RGBA = (u8, u8, u8);

pub open spec fn max3(c: RGBA) -> int {
    if c.0 >= c.1 && c.0 >= c.2 {
        c.0 as int
    } else if c.1 >= c.2 {
        c.1 as int
    } else {
        c.2 as int
    }
}

pub open spec fn min3(c: RGBA) -> int {
    if c.0 <= c.1 && c.0 <= c.2 {
        c.0 as int
    } else if c.1 <= c.2 {
        c.1 as int
    } else {
        c.2 as int
    }
}

/// Twice the HSL lightness of `c`, in units of 1/255: lightness is this over 510.
pub open spec fn lightness_sum(c: RGBA) -> int {
    max3(c) + min3(c)
}

/// Numerator of the contrast ratio of `a` and `b`: the lighter colour's term.
pub open spec fn contrast_num(a: RGBA, b: RGBA) -> int {
    if lightness_sum(a) >= lightness_sum(b) {
        2 * lightness_sum(a) + 51
    } else {
        2 * lightness_sum(b) + 51
    }
}

/// Denominator of the contrast ratio of `a` and `b`: the darker colour's term.
pub open spec fn contrast_den(a: RGBA, b: RGBA) -> int {
    if lightness_sum(a) >= lightness_sum(b) {
        2 * lightness_sum(b) + 51
    } else {
        2 * lightness_sum(a) + 51
    }
}

/// Whether the contrast ratio of `a` and `b` is at least `p / q`.
pub open spec fn contrast_at_least(a: RGBA, b: RGBA, p: int, q: int) -> bool {
    q * contrast_num(a, b) >= p * contrast_den(a, b)
}

/// A contrast ratio `numerator / denominator`, always at least 1.
#[derive(Clone, Copy, Debug, PartialEq, Eq)]
pub struct ContrastRatio {
    pub numerator: u32,
    pub denominator: u32,
}

impl ContrastRatio {
    pub open spec fn wf(self) -> bool {
        0 < self.denominator <= self.numerator <= 1071
    }

    /// `self <= other` as rationals.
    pub open spec fn le(self, other: ContrastRatio) -> bool {
        self.numerator * other.denominator <= other.numerator * self.denominator
    }

    /// Whether this ratio is at least `p / q`.
    pub fn at_least(&self, p: u32, q: u32) -> (r: bool)
        requires
            self.wf(),
            p <= 1000,
            q <= 1000,
        ensures
            r == (q * self.numerator >= p * self.denominator),
    {
        assert(q * self.numerator <= 1000 * 1071) by (nonlinear_arith)
            requires q <= 1000, self.numerator <= 1071;
        assert(p * self.denominator <= 1000 * 1071) by (nonlinear_arith)
            requires p <= 1000, self.denominator <= 1071;
        q * self.numerator >= p * self.denominator
    }

    /// Compares two ratios: whether `self` is strictly below `other`.
    pub fn less_than(&self, other: &ContrastRatio) -> (r: bool)
        requires
            self.wf(),
            other.wf(),
        ensures
            r == !other.le(*self),
    {
        assert(self.numerator * other.denominator <= 1071 * 1071) by (nonlinear_arith)
            requires self.numerator <= 1071, other.denominator <= 1071;
        assert(other.numerator * self.denominator <= 1071 * 1071) by (nonlinear_arith)
            requires other.numerator <= 1071, self.denominator <= 1071;
        self.numerator * other.denominator < other.numerator * self.denominator
    }
}

/// The ordering of ratios is transitive.
pub proof fn lemma_ratio_le_trans(a: ContrastRatio, b: ContrastRatio, c: ContrastRatio)
    requires
        a.wf(),
        b.wf(),
        c.wf(),
        a.le(b),
        b.le(c),
    ensures
        a.le(c),
{
    let (an, ad) = (a.numerator as int, a.denominator as int);
    let (bn, bd) = (b.numerator as int, b.denominator as int);
    let (cn, cd) = (c.numerator as int, c.denominator as int);
    assert(an * cd <= cn * ad) by (nonlinear_arith)
        requires
            an * bd <= bn * ad,
            bn * cd <= cn * bd,
            ad > 0,
            bd > 0,
            cd > 0,
    {
        assert(an * bd * cd <= bn * ad * cd);
        assert(bn * cd * ad <= cn * bd * ad);
        assert(an * cd * bd <= cn * ad * bd);
    }
}

fn max3_exec(c: RGBA) -> (r: u8)
    ensures
        r as int == max3(c),
{
    if c.0 >= c.1 && c.0 >= c.2 {
        c.0
    } else if c.1 >= c.2 {
        c.1
    } else {
        c.2
    }
}

fn min3_exec(c: RGBA) -> (r: u8)
    ensures
        r as int == min3(c),
{
    if c.0 <= c.1 && c.0 <= c.2 {
        c.0
    } else if c.1 <= c.2 {
        c.1
    } else {
        c.2
    }
}

/// HSL lightness of `color` as `max + min` of its channels (so `0..=510`;
/// the lightness on `0..=1` is this value over 510).
pub fn brightness(color: RGBA) -> (r: u16)
    ensures
        r as int == lightness_sum(color),
        r <= 510,
{
    max3_exec(color) as u16 + min3_exec(color) as u16
}

/// The WCAG contrast ratio between the two colours
/// (<https://www.w3.org/TR/WCAG/#dfn-contrast-ratio>).
pub fn contrast(color_a: RGBA, color_b: RGBA) -> (r: ContrastRatio)
    ensures
        r.wf(),
        r.numerator == contrast_num(color_a, color_b),
        r.denominator == contrast_den(color_a, color_b),
{
    let la = brightness(color_a) as u32;
    let lb = brightness(color_b) as u32;
    if la >= lb {
        ContrastRatio { numerator: 2 * la + 51, denominator: 2 * lb + 51 }
    } else {
        ContrastRatio { numerator: 2 * lb + 51, denominator: 2 * la + 51 }
    }
}

/// Whether the contrast fulfils the WCAG minimum for normal text (4.5:1).
pub fn is_minimum_text_contrast(text_color: RGBA, background_color: RGBA) -> (r: bool)
    ensures
        r == contrast_at_least(text_color, background_color, 9, 2),
{
    contrast(text_color, background_color).at_least(9, 2)
}

/// Whether the contrast fulfils the WCAG enhanced level for normal text (7:1).
pub fn is_enhanced_text_contrast(text_color: RGBA, background_color: RGBA) -> (r: bool)
    ensures
        r == contrast_at_least(text_color, background_color, 7, 1),
{
    contrast(text_color, background_color).at_least(7, 1)
}

/// Whether the contrast fulfils the WCAG minimum for large text (3:1).
pub fn is_minimum_large_text_contrast(text_color: RGBA, background_color: RGBA) -> (r: bool)
    ensures
        r == contrast_at_least(text_color, background_color, 3, 1),
{
    contrast(text_color, background_color).at_least(3, 1)
}

/// Whether the contrast fulfils the WCAG enhanced level for large text (4.5:1).
pub fn is_enhanced_large_text_contrast(text_color: RGBA, background_color: RGBA) -> (r: bool)
    ensures
        r == contrast_at_least(text_color, background_color, 9, 2),
{
    contrast(text_color, background_color).at_least(9, 2)
}

/// The contrast between colour `swatch_a_idx` of one swatch and colour
/// `swatch_b_idx` of another.
#[derive(Clone, Copy, Debug, PartialEq, Eq)]
pub struct SwatchColorContrast {
    pub swatch_a_idx: usize,
    pub swatch_b_idx: usize,
    pub color_a: RGBA,
    pub color_b: RGBA,
    pub contrast: ContrastRatio,
}

/// The entry for colour `i` of `a` against colour `j` of `b`.
pub open spec fn pair_entry(a: Seq<RGBA>, b: Seq<RGBA>, i: int, j: int) -> SwatchColorContrast {
    SwatchColorContrast {
        swatch_a_idx: i as usize,
        swatch_b_idx: j as usize,
        color_a: a[i],
        color_b: b[j],
        contrast: ContrastRatio {
            numerator: contrast_num(a[i], b[j]) as u32,
            denominator: contrast_den(a[i], b[j]) as u32,
        },
    }
}

/// Colour `i` of `a` against every colour of `b`, in the order of `b`.
pub open spec fn pair_row(a: Seq<RGBA>, b: Seq<RGBA>, i: int) -> Seq<SwatchColorContrast> {
    Seq::new(b.len(), |j: int| pair_entry(a, b, i, j))
}

/// The first `n` colours of `a` against every colour of `b`, row by row.
pub open spec fn pair_rows(a: Seq<RGBA>, b: Seq<RGBA>, n: nat) -> Seq<SwatchColorContrast>
    decreases n,
{
    if n == 0 {
        Seq::empty()
    } else {
        pair_rows(a, b, (n - 1) as nat) + pair_row(a, b, n - 1)
    }
}

/// Ascending by contrast ratio.
pub open spec fn sorted_by_contrast(s: Seq<SwatchColorContrast>) -> bool {
    forall|i: int, j: int| 0 <= i < j < s.len() ==> (#[trigger] s[i]).contrast.le(#[trigger] s[j].contrast)
}

pub open spec fn all_ratios_wf(s: Seq<SwatchColorContrast>) -> bool {
    forall|i: int| 0 <= i < s.len() ==> (#[trigger] s[i]).contrast.wf()
}

proof fn lemma_pair_rows_wf(a: Seq<RGBA>, b: Seq<RGBA>, n: nat)
    requires
        n <= a.len(),
    ensures
        all_ratios_wf(pair_rows(a, b, n)),
        pair_rows(a, b, n).len() == n * b.len(),
    decreases n,
{
    if n > 0 {
        lemma_pair_rows_wf(a, b, (n - 1) as nat);
        assert forall|j: int| 0 <= j < b.len() implies (#[trigger] pair_row(a, b, n - 1)[j]).contrast.wf() by {
            lemma_contrast_bounds(a[n - 1], b[j]);
        }
        let m = (n - 1) as nat;
        let w = b.len();
        assert(n * w == m * w + w) by (nonlinear_arith)
            requires
                n == m + 1,
        ;
        assert(pair_rows(a, b, n).len() == pair_rows(a, b, m).len() + w);
    } else {
        assert(n * b.len() == 0) by (nonlinear_arith)
            requires
                n == 0,
        ;
    }
}

proof fn lemma_contrast_bounds(x: RGBA, y: RGBA)
    ensures
        0 < contrast_den(x, y) <= contrast_num(x, y) <= 1071,
{
}

/// Inserts `e` into the ascending `out`, after every entry of equal ratio.
fn insert_by_contrast(out: &mut Vec<SwatchColorContrast>, e: SwatchColorContrast)
    requires
        sorted_by_contrast(old(out)@),
        all_ratios_wf(old(out)@),
        e.contrast.wf(),
    ensures
        sorted_by_contrast(final(out)@),
        all_ratios_wf(final(out)@),
        final(out)@.to_multiset() == old(out)@.to_multiset().insert(e),
{
    let mut k: usize = 0;
    while k < out.len() && !e.contrast.less_than(&out[k].contrast)
        invariant
            k <= out.len(),
            sorted_by_contrast(out@),
            all_ratios_wf(out@),
            e.contrast.wf(),
            forall|m: int| 0 <= m < k ==> (#[trigger] out@[m]).contrast.le(e.contrast),
        decreases out.len() - k,
    {
        k = k + 1;
    }
    let ghost before = out@;
    out.insert(k, e);
    proof {
        broadcast use vstd::seq_lib::to_multiset_insert;
        let s = out@;
        assert(s == before.insert(k as int, e));
        assert forall|i: int, j: int| 0 <= i < j < s.len() implies (#[trigger] s[i]).contrast.le(#[trigger] s[j].contrast) by {
            if j < k {
            } else if j == k {
            } else if i < k {
                assert(s[i] == before[i]);
                assert(s[j] == before[j - 1]);
            } else if i == k {
                assert(s[j] == before[j - 1]);
                assert(before[k as int].contrast.le(before[j - 1].contrast) || k as int == j - 1);
                assert(e.contrast.le(before[k as int].contrast));
                if k as int != j - 1 {
                    lemma_ratio_le_trans(e.contrast, before[k as int].contrast, before[j - 1].contrast);
                }
            } else {
                assert(s[i] == before[i - 1]);
                assert(s[j] == before[j - 1]);
            }
        }
    }
}

/// The contrast between every colour of `swatch_a` and every colour of
/// `swatch_b`, each pair once, in ascending order of contrast ratio.
pub fn swatch_color_contrast(swatch_a: &Vec<RGBA>, swatch_b: &Vec<RGBA>) -> (r: Vec<SwatchColorContrast>)
    ensures
        r@.to_multiset() == pair_rows(swatch_a@, swatch_b@, swatch_a@.len()).to_multiset(),
        r@.len() == swatch_a@.len() * swatch_b@.len(),
        sorted_by_contrast(r@),
{
    let mut out: Vec<SwatchColorContrast> = Vec::new();
    let ghost sa = swatch_a@;
    let ghost sb = swatch_b@;
    let mut i: usize = 0;
    while i < swatch_a.len()
        invariant
            i <= sa.len(),
            sa == swatch_a@,
            sb == swatch_b@,
            sorted_by_contrast(out@),
            all_ratios_wf(out@),
            out@.to_multiset() == pair_rows(sa, sb, i as nat).to_multiset(),
        decreases sa.len() - i,
    {
        let mut j: usize = 0;
        while j < swatch_b.len()
            invariant
                i < sa.len(),
                j <= sb.len(),
                sa == swatch_a@,
                sb == swatch_b@,
                sorted_by_contrast(out@),
                all_ratios_wf(out@),
                out@.to_multiset() == (pair_rows(sa, sb, i as nat) + pair_row(sa, sb, i as int).take(j as int)).to_multiset(),
            decreases sb.len() - j,
        {
            let e = SwatchColorContrast {
                swatch_a_idx: i,
                swatch_b_idx: j,
                color_a: swatch_a[i],
                color_b: swatch_b[j],
                contrast: contrast(swatch_a[i], swatch_b[j]),
            };
            let ghost prev = pair_rows(sa, sb, i as nat) + pair_row(sa, sb, i as int).take(j as int);
            insert_by_contrast(&mut out, e);
            proof {
                broadcast use vstd::seq_lib::to_multiset_build;
                let next = pair_rows(sa, sb, i as nat) + pair_row(sa, sb, i as int).take(j + 1);
                assert(e == pair_entry(sa, sb, i as int, j as int));
                assert(next =~= prev.push(e));
            }
            j = j + 1;
        }
        proof {
            assert(pair_row(sa, sb, i as int).take(sb.len() as int) =~= pair_row(sa, sb, i as int));
            assert(pair_rows(sa, sb, (i + 1) as nat) == pair_rows(sa, sb, i as nat) + pair_row(sa, sb, i as int));
        }
        i = i + 1;
    }
    proof {
        lemma_pair_rows_wf(sa, sb, sa.len());
        vstd::seq_lib::to_multiset_len(out@);
        vstd::seq_lib::to_multiset_len(pair_rows(sa, sb, sa.len()));
    }
    out
}

} // verus!
