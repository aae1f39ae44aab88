use vstd::prelude::*;

verus! {

/// A decimal number, `mantissa` divided by ten to the power `exponent`:
/// `Scale { mantissa: 5, exponent: 1 }` is one half.
#[derive(Clone, Copy, Debug, PartialEq, Eq, Structural)]
pub struct Scale {
    pub mantissa: u64,
    pub exponent: u8,
}

/// The character of the decimal digit `d`.
pub open spec fn digit_char(d: nat) -> char {
    if d == 0 { '0' }
    else if d == 1 { '1' }
    else if d == 2 { '2' }
    else if d == 3 { '3' }
    else if d == 4 { '4' }
    else if d == 5 { '5' }
    else if d == 6 { '6' }
    else if d == 7 { '7' }
    else if d == 8 { '8' }
    else { '9' }
}

/// The decimal digits of `n`, most significant first, without leading zeros.
pub open spec fn decimal_digits(n: nat) -> Seq<char>
    decreases n,
{
    if n < 10 {
        seq![digit_char(n)]
    } else {
        decimal_digits(n / 10).push(digit_char(n % 10))
    }
}

/// The digits of `m`, with zeros in front so that at least `e + 1` digits stand.
pub open spec fn padded_digits(m: nat, e: nat) -> Seq<char> {
    let d = decimal_digits(m);
    if d.len() <= e {
        Seq::new((e + 1 - d.len()) as nat, |i: int| '0') + d
    } else {
        d
    }
}

/// The decimal notation of `m / 10^e`: the last `e` digits after a point.
pub open spec fn decimal_text(m: nat, e: nat) -> Seq<char> {
    let p = padded_digits(m, e);
    if e == 0 {
        p
    } else {
        p.subrange(0, p.len() - e) + seq!['.'] + p.subrange(p.len() - e, p.len() as int)
    }
}

/// The option that sets the size of an image, or nothing when it has no scale.
pub open spec fn scale_directive(scale: Option<Scale>) -> Seq<char> {
    match scale {
        None => Seq::empty(),
        Some(s) => "[scale="@ + decimal_text(s.mantissa as nat, s.exponent as nat) + "]"@,
    }
}

/// The markup that an image with a caption produces.
pub open spec fn graphic_markup(filename: Seq<char>, caption: Seq<char>, scale: Option<Scale>) -> Seq<char> {
    "\\begin{figure}[h]\n\\centering\n\\includegraphics"@ + scale_directive(scale) + "{"@
        + filename + "}\n\\caption{"@ + caption + "}\n\\end{figure}\n"@
}

fn digit(d: u64) -> (c: char)
    requires
        d < 10,
    ensures
        c == digit_char(d as nat),
{
    if d == 0 { '0' }
    else if d == 1 { '1' }
    else if d == 2 { '2' }
    else if d == 3 { '3' }
    else if d == 4 { '4' }
    else if d == 5 { '5' }
    else if d == 6 { '6' }
    else if d == 7 { '7' }
    else if d == 8 { '8' }
    else { '9' }
}

fn push_digits(n: u64, out: &mut Vec<char>)
    ensures
        final(out)@ == old(out)@ + decimal_digits(n as nat),
    decreases n,
{
    if n >= 10 {
        push_digits(n / 10, out);
    }
    out.push(digit(n % 10));
    assert(out@ =~= old(out)@ + decimal_digits(n as nat));
}

/// Appends the decimal notation of `s` to `out`.
pub fn write_decimal(s: Scale, out: &mut String)
    ensures
        final(out)@ == old(out)@ + decimal_text(s.mantissa as nat, s.exponent as nat),
{
    let mut d: Vec<char> = Vec::new();
    push_digits(s.mantissa, &mut d);
    assert(d@ =~= decimal_digits(s.mantissa as nat));
    let e: usize = s.exponent as usize;
    let mut p: Vec<char> = Vec::new();
    if d.len() <= e {
        let k: usize = e + 1 - d.len();
        let mut j: usize = 0;
        while j < k
            invariant
                j <= k,
                p@ =~= Seq::new(j as nat, |i: int| '0'),
            decreases k - j,
        {
            p.push('0');
            j = j + 1;
        }
    }
    let ghost front = p@;
    let mut j: usize = 0;
    while j < d.len()
        invariant
            j <= d.len(),
            p@ =~= front + d@.subrange(0, j as int),
        decreases d.len() - j,
    {
        p.push(d[j]);
        j = j + 1;
    }
    assert(p@ =~= padded_digits(s.mantissa as nat, s.exponent as nat));
    let len: usize = p.len();
    let cut: usize = len - e;
    let ghost base = out@;
    let mut i: usize = 0;
    while i < len
        invariant
            i <= len,
            len == p@.len(),
            cut == len - e,
            e < len,
            out@ =~= base + (if e == 0 || i <= cut {
                p@.subrange(0, i as int)
            } else {
                p@.subrange(0, cut as int) + seq!['.'] + p@.subrange(cut as int, i as int)
            }),
        decreases len - i,
    {
        if i == cut && e > 0 {
            out.push('.');
        }
        out.push(p[i]);
        i = i + 1;
    }
}

/// An image with a caption, and an optional size factor.
pub struct Graphic {
    pub filename: String,
    pub caption: String,
    pub scale: Option<Scale>,
}

impl Graphic {
    /// An image of `filename` with `caption`, at its natural size.
    pub fn new(filename: String, caption: String) -> (r: Graphic)
        ensures
            r.filename@ == filename@,
            r.caption@ == caption@,
            r.scale is None,
    {
        Graphic { filename, caption, scale: None }
    }

    /// Gives the image the size factor `scale`.
    pub fn set_scale(&mut self, scale: Scale)
        ensures
            final(self).filename == old(self).filename,
            final(self).caption == old(self).caption,
            final(self).scale == Some(scale),
    {
        self.scale = Some(scale);
    }

    /// Appends the markup of this image to `out`.
    pub fn write_to(&self, out: &mut String)
        ensures
            final(out)@ == old(out)@ + graphic_markup(self.filename@, self.caption@, self.scale),
    {
        let ghost base = out@;
        out.append("\\begin{figure}[h]\n\\centering\n\\includegraphics");
        let ghost before_scale = out@;
        match self.scale {
            None => {},
            Some(s) => {
                out.append("[scale=");
                write_decimal(s, out);
                out.append("]");
            },
        }
        assert(out@ =~= before_scale + scale_directive(self.scale));
        out.append("{");
        out.append(self.filename.as_str());
        out.append("}\n\\caption{");
        out.append(self.caption.as_str());
        out.append("}\n\\end{figure}\n");
        assert(out@ =~= base + graphic_markup(self.filename@, self.caption@, self.scale));
    }
}

} // verus!
