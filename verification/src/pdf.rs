//! The campaign PDF of a repurposing task: JPEG logo size, PDF text
//! escaping, word wrapping, page layout and the file with its cross-reference
//! table.
//!
//! Lengths on the page are counted in half points (a PDF point is 1/72 inch),
//! which every position and size of the layout is a whole number of.
use vstd::prelude::*;
use crate::text::{chars_of, string_of, owned, push_str, split_char, split_on, utf8, byte_len, decimal, padded, push_padded, to_upper, uppercase, replace_all, str_replace};
use crate::caption::{push_nat};

verus! {

// ---------------------------------------------------------------------------
// JPEG size
// ---------------------------------------------------------------------------

pub open spec fn be16(hi: u8, lo: u8) -> int {
    hi as int * 256 + lo as int
}

/// Walks the JPEG marker segments from byte `i` to the first start-of-frame
/// marker (`C0`–`CF` but `C4`, `C8`, `CC`) and reads (width, height) from it.
pub open spec fn jpeg_scan(b: Seq<u8>, i: int) -> Option<(u32, u32)>
    decreases b.len() - i,
{
    if i < 0 || i + 9 >= b.len() {
        None
    } else if b[i] != 0xFF {
        jpeg_scan(b, i + 1)
    } else {
        let m = b[i + 1];
        if m == 0xD8 || m == 0xD9 {
            jpeg_scan(b, i + 2)
        } else {
            let len = be16(b[i + 2], b[i + 3]);
            if len < 2 {
                jpeg_scan(b, i + 2)
            } else if 0xC0 <= m <= 0xCF && m != 0xC4 && m != 0xC8 && m != 0xCC {
                Some((be16(b[i + 7], b[i + 8]) as u32, be16(b[i + 5], b[i + 6]) as u32))
            } else if i + 2 + len <= b.len() {
                jpeg_scan(b, i + 2 + len)
            } else {
                None
            }
        }
    }
}

/// The (width, height) of a JPEG, scanning from byte 2.
pub fn jpeg_dimensions(bytes: &Vec<u8>) -> (r: Option<(u32, u32)>)
    ensures
        r == jpeg_scan(bytes@, 2),
{
    let n = bytes.len();
    let mut i: usize = 2;
    while n > 9 && i < n - 9
        invariant
            n == bytes.len(),
            2 <= i,
            jpeg_scan(bytes@, i as int) == jpeg_scan(bytes@, 2),
        decreases n - i,
    {
        if bytes[i] != 0xFF {
            i += 1;
        } else {
            let m = bytes[i + 1];
            if m == 0xD8 || m == 0xD9 {
                i += 2;
            } else {
                let len: usize = (bytes[i + 2] as usize) * 256 + bytes[i + 3] as usize;
                if len < 2 {
                    i += 2;
                } else if 0xC0 <= m && m <= 0xCF && m != 0xC4 && m != 0xC8 && m != 0xCC {
                    let h: u32 = (bytes[i + 5] as u32) * 256 + bytes[i + 6] as u32;
                    let w: u32 = (bytes[i + 7] as u32) * 256 + bytes[i + 8] as u32;
                    return Some((w, h));
                } else if len + 2 > n - i {
                    return None;
                } else {
                    i = i + 2 + len;
                }
            }
        }
    }
    None
}

// ---------------------------------------------------------------------------
// Text in a PDF string
// ---------------------------------------------------------------------------

/// How one character is written inside a PDF string: back-slash and brackets
/// escaped, anything outside ASCII replaced by a space.
pub open spec fn pdf_char(c: char) -> Seq<char> {
    if c == '\\' {
        seq!['\\', '\\']
    } else if c == '(' {
        seq!['\\', '(']
    } else if c == ')' {
        seq!['\\', ')']
    } else if (c as u32) < 128 {
        seq![c]
    } else {
        seq![' ']
    }
}

pub open spec fn pdf_escaped(s: Seq<char>) -> Seq<char>
    decreases s.len(),
{
    if s.len() == 0 { seq![] } else { pdf_escaped(s.drop_last()) + pdf_char(s.last()) }
}

pub fn pdf_escape_chars(s: &Vec<char>) -> (r: Vec<char>)
    ensures
        r@ == pdf_escaped(s@),
{
    let mut r: Vec<char> = Vec::new();
    let mut i: usize = 0;
    while i < s.len()
        invariant
            i <= s.len(),
            r@ == pdf_escaped(s@.take(i as int)),
        decreases s.len() - i,
    {
        let c = s[i];
        let ghost before = r@;
        if c == '\\' {
            r.push('\\');
            r.push('\\');
        } else if c == '(' {
            r.push('\\');
            r.push('(');
        } else if c == ')' {
            r.push('\\');
            r.push(')');
        } else if (c as u32) < 128 {
            r.push(c);
        } else {
            r.push(' ');
        }
        proof {
            assert(s@.take(i + 1).drop_last() =~= s@.take(i as int));
            assert(r@ =~= before + pdf_char(c));
        }
        i += 1;
    }
    assert(s@.take(s.len() as int) =~= s@);
    r
}

/// Text as a PDF string literal's body.
pub fn pdf_escape(text: &str) -> (r: String)
    ensures
        r@ == pdf_escaped(text@),
{
    let cs = chars_of(text);
    let e = pdf_escape_chars(&cs);
    string_of(&e)
}

// ---------------------------------------------------------------------------
// Word wrapping
// ---------------------------------------------------------------------------

/// How many bytes of text fit a line of the page's text width (508 pt) at a
/// font size of `size2` half points, at 0.52 em per character.
pub open spec fn wrap_budget(size2: nat) -> nat {
    if size2 == 0 { 0 } else { 50800nat / (26 * size2) }
}

/// Greedy filling of lines from the words of one paragraph (split at single
/// spaces, empty words skipped): returns the finished lines and the line
/// being filled.
pub open spec fn fill(words: Seq<Seq<char>>, budget: nat) -> (Seq<Seq<char>>, Seq<char>)
    decreases words.len(),
{
    if words.len() == 0 {
        (seq![], seq![])
    } else {
        let (done, line) = fill(words.drop_last(), budget);
        let w = words.last();
        if w.len() == 0 {
            (done, line)
        } else if line.len() == 0 {
            (done, w)
        } else if utf8(line).len() + 1 + utf8(w).len() <= budget {
            (done, line + " "@ + w)
        } else {
            (done.push(line), w)
        }
    }
}

/// The lines of one paragraph.
pub open spec fn para_lines(p: Seq<char>, budget: nat) -> Seq<Seq<char>> {
    let (done, line) = fill(split_char(p, ' '), budget);
    if line.len() == 0 { done } else { done.push(line) }
}

pub open spec fn paras_lines(ps: Seq<Seq<char>>, budget: nat) -> Seq<Seq<char>>
    decreases ps.len(),
{
    if ps.len() == 0 { seq![] } else { paras_lines(ps.drop_last(), budget) + para_lines(ps.last(), budget) }
}

/// `pdf_wrap`: the text's lines at a font size; paragraphs break at line
/// breaks; there is always at least one (possibly empty) line.
pub open spec fn wrapped(text: Seq<char>, size2: nat) -> Seq<Seq<char>> {
    let budget = wrap_budget(size2);
    if budget == 0 {
        seq![text]
    } else {
        let out = paras_lines(split_char(text, '\n'), budget);
        if out.len() == 0 { seq![seq![]] } else { out }
    }
}

fn fill_para(words: &Vec<Vec<char>>, budget: usize, out: &mut Vec<Vec<char>>)
    requires
        budget <= 50800,
    ensures
        final(out)@.map_values(|l: Vec<char>| l@) == old(out)@.map_values(|l: Vec<char>| l@) + para_lines_of(words@.map_values(|w: Vec<char>| w@), budget as nat),
{
    let ghost ws = words@.map_values(|w: Vec<char>| w@);
    let ghost base = out@.map_values(|l: Vec<char>| l@);
    let mut line: Vec<char> = Vec::new();
    let mut line_bytes: usize = 0;
    let mut i: usize = 0;
    while i < words.len()
        invariant
            i <= words.len(),
            ws == words@.map_values(|w: Vec<char>| w@),
            out@.map_values(|l: Vec<char>| l@) == base + fill(ws.take(i as int), budget as nat).0,
            line@ == fill(ws.take(i as int), budget as nat).1,
            line_bytes == utf8(line@).len(),
            budget <= 50800,
        decreases words.len() - i,
    {
        let w = &words[i];
        proof {
            assert(ws.take(i + 1).drop_last() =~= ws.take(i as int));
            assert(ws.take(i + 1).last() == w@);
        }
        let wb = bytes_of_chars(w);
        if w.len() == 0 {
        } else if line.len() == 0 {
            line = w.clone();
            line_bytes = wb;
        } else if line_bytes <= budget && wb <= budget && line_bytes + 1 + wb <= budget {
            line.push(' ');
            let mut k: usize = 0;
            let ghost l0 = line@;
            while k < w.len()
                invariant
                    k <= w.len(),
                    line@ == l0 + w@.take(k as int),
                decreases w.len() - k,
            {
                line.push(w[k]);
                k += 1;
                assert(w@.take(k as int) =~= w@.take(k - 1).push(w@[k - 1]));
            }
            proof {
                assert(w@.take(w.len() as int) =~= w@);
                assert(l0 =~= fill(ws.take(i as int), budget as nat).1 + " "@) by {
                    reveal_strlit(" ");
                }
                lemma_utf8_concat3(fill(ws.take(i as int), budget as nat).1, " "@, w@);
                assert(utf8(" "@).len() == 1) by {
                    reveal_strlit(" ");
                    assert(" "@ =~= seq![' ']);
                    assert(utf8(seq![' ']) == vstd::utf8::encode_scalar(' ' as u32) + utf8(seq![' '].drop_first()));
                    assert(seq![' '].drop_first() =~= Seq::<char>::empty());
                }
                assert(line@ =~= fill(ws.take(i as int), budget as nat).1 + " "@ + w@);
            }
            line_bytes = line_bytes + 1 + wb;
        } else {
            let ghost before = out@;
            out.push(line);
            assert(out@.map_values(|l: Vec<char>| l@) =~= before.map_values(|l: Vec<char>| l@).push(fill(ws.take(i as int), budget as nat).1));
            line = w.clone();
            line_bytes = wb;
        }
        i += 1;
    }
    assert(ws.take(words.len() as int) =~= ws);
    if line.len() > 0 {
        let ghost before = out@;
        out.push(line);
        assert(out@.map_values(|l: Vec<char>| l@) =~= before.map_values(|l: Vec<char>| l@).push(fill(ws, budget as nat).1));
    } else {
        assert(out@.map_values(|l: Vec<char>| l@) =~= base + fill(ws, budget as nat).0);
    }
}

/// The lines of a paragraph given as its words.
pub open spec fn para_lines_of(words: Seq<Seq<char>>, budget: nat) -> Seq<Seq<char>> {
    let (done, line) = fill(words, budget);
    if line.len() == 0 { done } else { done.push(line) }
}

proof fn lemma_utf8_concat3(a: Seq<char>, b: Seq<char>, c: Seq<char>)
    ensures
        utf8(a + b + c).len() == utf8(a).len() + utf8(b).len() + utf8(c).len(),
{
    crate::text::lemma_utf8_concat(a, b);
    crate::text::lemma_utf8_concat(a + b, c);
}

/// The UTF-8 length of a character vector.
fn bytes_of_chars(cs: &Vec<char>) -> (n: usize)
    ensures
        n == utf8(cs@).len(),
{
    let s = string_of(cs);
    byte_len(s.as_str())
}

pub fn pdf_wrap(text: &str, size2: u32) -> (r: Vec<String>)
    ensures
        r@.map_values(|s: String| s@) == wrapped(text@, size2 as nat),
{
    let budget: usize = if size2 == 0 { 0 } else {
        let d: u64 = 26 * size2 as u64;
        let b = 50800u64 / d;
        assert(b <= 50800) by (nonlinear_arith)
            requires
                b as int == 50800int / (d as int),
                d >= 1,
        ;
        b as usize
    };
    if budget == 0 {
        let mut r: Vec<String> = Vec::new();
        r.push(owned(text));
        assert(r@.map_values(|s: String| s@) =~= seq![text@]);
        return r;
    }
    let cs = chars_of(text);
    let paras = split_on(&cs, '\n');
    let mut lines: Vec<Vec<char>> = Vec::new();
    let mut p: usize = 0;
    let ghost ps = split_char(text@, '\n');
    while p < paras.len()
        invariant
            p <= paras.len(),
            paras.len() == ps.len(),
            ps == split_char(text@, '\n'),
            forall|j: int| 0 <= j < paras.len() ==> #[trigger] paras[j]@ == ps[j],
            lines@.map_values(|l: Vec<char>| l@) == paras_lines(ps.take(p as int), budget as nat),
            budget <= 50800,
        decreases paras.len() - p,
    {
        let words = split_on(&paras[p], ' ');
        proof {
            assert(words@.map_values(|w: Vec<char>| w@) =~= split_char(ps[p as int], ' '));
            assert(ps.take(p + 1).drop_last() =~= ps.take(p as int));
        }
        fill_para(&words, budget, &mut lines);
        p += 1;
    }
    assert(ps.take(paras.len() as int) =~= ps);
    let mut r: Vec<String> = Vec::new();
    let mut k: usize = 0;
    while k < lines.len()
        invariant
            k <= lines.len(),
            r@.map_values(|s: String| s@) == lines@.map_values(|l: Vec<char>| l@).take(k as int),
        decreases lines.len() - k,
    {
        let ghost before = r@;
        r.push(string_of(&lines[k]));
        assert(r@.map_values(|s: String| s@) =~= before.map_values(|s: String| s@).push(lines[k as int]@));
        assert(lines@.map_values(|l: Vec<char>| l@).take(k + 1) =~= lines@.map_values(|l: Vec<char>| l@).take(k as int).push(lines[k as int]@));
        k += 1;
    }
    assert(lines@.map_values(|l: Vec<char>| l@).take(lines.len() as int) =~= lines@.map_values(|l: Vec<char>| l@));
    if r.len() == 0 {
        r.push(String::new());
        assert(r@.map_values(|s: String| s@) =~= seq![Seq::<char>::empty()]);
    }
    r
}

// ---------------------------------------------------------------------------
// Page layout
// ---------------------------------------------------------------------------

/// A length in half points as the layout writes it: whole points, or with
/// `.5`.
pub open spec fn halfpt(v: int) -> Seq<char> {
    let a = if v < 0 { -v } else { v };
    (if v < 0 { "-"@ } else { ""@ }) + decimal((a / 2) as nat) + (if a % 2 == 1 { ".5"@ } else { ""@ })
}

fn push_halfpt(out: &mut String, v: i64)
    requires
        -0x1000_0000 <= v <= 0x1000_0000,
    ensures
        final(out)@ == old(out)@ + halfpt(v as int),
{
    let ghost o = out@;
    proof {
        reveal_strlit("");
    }
    let a: u64 = if v < 0 { (-v) as u64 } else { v as u64 };
    if v < 0 {
        push_str(out, "-");
    }
    let ghost mid = out@;
    push_nat(out, a / 2);
    if a % 2 == 1 {
        push_str(out, ".5");
    }
    assert(out@ =~= o + halfpt(v as int));
}

pub open spec fn rose() -> Seq<char> { "0.956 0.247 0.369"@ }
pub open spec fn accent() -> Seq<char> { "0.988 0.443 0.522"@ }
pub open spec fn dark() -> Seq<char> { "0.07 0.07 0.09"@ }
pub open spec fn muted() -> Seq<char> { "0.42 0.42 0.47"@ }

/// The layout's state: finished pages, the page being drawn, and the baseline
/// of the next line in half points from the bottom.
pub struct LayoutState {
    pub pages: Seq<Seq<char>>,
    pub cur: Seq<char>,
    pub y: int,
}

/// The first page's brand bar with the logo (its width in points as written)
/// or the name in white.
pub open spec fn first_page(logo_width: Option<Seq<char>>) -> Seq<char> {
    rose() + " rg\n0 796 612 46 re f\n"@ + match logo_width {
        Some(w) => "q\n"@ + w + " 0 0 30 56 804 cm\n/Im1 Do\nQ\n"@,
        None => "/F2 16 Tf\n1 1 1 rg\nBT\n68 806 Td\n(NovaClip) Tj\nET\n"@,
    }
}

/// The thin rule at the top of every later page.
pub open spec fn page_rule() -> Seq<char> {
    accent() + " rg\n52 798 508 1.5 re f\n"@
}

pub open spec fn st_new_page(st: LayoutState) -> LayoutState {
    LayoutState { pages: st.pages.push(st.cur), cur: page_rule(), y: 1564 }
}

/// One line of text at the current baseline.
pub open spec fn text_op(line: Seq<char>, font: Seq<char>, size2: int, color: Seq<char>, y: int) -> Seq<char> {
    color + " rg\n"@ + font + " "@ + halfpt(size2) + " Tf\nBT\n52 "@ + halfpt(y) + " Td\n("@ + pdf_escaped(line) + ") Tj\nET\n"@
}

/// Draws a line, starting a new page first when it would go below the bottom
/// margin, and moves the baseline down by the leading.
pub open spec fn st_line(st: LayoutState, line: Seq<char>, font: Seq<char>, size2: int, color: Seq<char>, lead: int) -> LayoutState {
    let s = if st.y - lead < 104 { st_new_page(st) } else { st };
    LayoutState { cur: s.cur + text_op(line, font, size2, color, s.y), y: s.y - lead, ..s }
}

pub open spec fn st_lines(st: LayoutState, lines: Seq<Seq<char>>, font: Seq<char>, size2: int, color: Seq<char>, lead: int) -> LayoutState
    decreases lines.len(),
{
    if lines.len() == 0 {
        st
    } else {
        st_line(st_lines(st, lines.drop_last(), font, size2, color, lead), lines.last(), font, size2, color, lead)
    }
}

/// Draws a text wrapped to the page width.
pub open spec fn st_emit(st: LayoutState, text: Seq<char>, font: Seq<char>, size2: int, color: Seq<char>, lead: int) -> LayoutState {
    st_lines(st, wrapped(text, size2 as nat), font, size2, color, lead)
}

pub open spec fn st_space(st: LayoutState, d: int) -> LayoutState {
    LayoutState { y: st.y - d, ..st }
}

/// A page being laid out.
pub struct PdfDoc {
    pages: Vec<String>,
    cur: String,
    y: i64,
}

impl PdfDoc {
    pub closed spec fn state(&self) -> LayoutState {
        LayoutState { pages: self.pages@.map_values(|p: String| p@), cur: self.cur@, y: self.y as int }
    }

    pub closed spec fn ok(&self) -> bool {
        0 <= self.y <= 1564
    }

    /// A document with the brand bar on its first page and the baseline under
    /// the top margin.
    pub fn new(logo_width: Option<&str>) -> (d: PdfDoc)
        ensures
            d.ok(),
            d.state() == (LayoutState { pages: seq![], cur: first_page(match logo_width { Some(w) => Some(w@), None => None }), y: 1564 }),
    {
        let mut cur = owned("0.956 0.247 0.369");
        push_str(&mut cur, " rg\n0 796 612 46 re f\n");
        match logo_width {
            Some(w) => {
                push_str(&mut cur, "q\n");
                push_str(&mut cur, w);
                push_str(&mut cur, " 0 0 30 56 804 cm\n/Im1 Do\nQ\n");
            }
            None => push_str(&mut cur, "/F2 16 Tf\n1 1 1 rg\nBT\n68 806 Td\n(NovaClip) Tj\nET\n"),
        }
        let d = PdfDoc { pages: Vec::new(), cur, y: 1564 };
        assert(d.state().pages =~= Seq::<Seq<char>>::empty());
        assert(d.state().cur =~= first_page(match logo_width { Some(w) => Some(w@), None => None }));
        d
    }

    fn new_page(&mut self)
        requires
            old(self).ok(),
        ensures
            final(self).ok(),
            final(self).state() == st_new_page(old(self).state()),
    {
        let page = self.cur.clone();
        let ghost before = self.pages@;
        self.pages.push(page);
        self.cur = owned("0.988 0.443 0.522");
        push_str(&mut self.cur, " rg\n52 798 508 1.5 re f\n");
        self.y = 1564;
        assert(self.state().pages =~= old(self).state().pages.push(old(self).state().cur));
        assert(self.state().cur =~= page_rule());
    }

    fn line(&mut self, line: &str, font: &str, size2: i64, color: &str, lead: i64)
        requires
            old(self).ok(),
            0 < lead <= 1460,
            0 < size2 <= 1000,
        ensures
            final(self).ok(),
            final(self).y >= 104,
            final(self).state() == st_line(old(self).state(), line@, font@, size2 as int, color@, lead as int),
    {
        if self.y - lead < 104 {
            self.new_page();
        }
        let ghost mid = self.state();
        push_str(&mut self.cur, color);
        push_str(&mut self.cur, " rg\n");
        push_str(&mut self.cur, font);
        push_str(&mut self.cur, " ");
        push_halfpt(&mut self.cur, size2);
        push_str(&mut self.cur, " Tf\nBT\n52 ");
        push_halfpt(&mut self.cur, self.y);
        push_str(&mut self.cur, " Td\n(");
        let e = pdf_escape(line);
        push_str(&mut self.cur, e.as_str());
        push_str(&mut self.cur, ") Tj\nET\n");
        self.y = self.y - lead;
        assert(self.state().cur =~= mid.cur + text_op(line@, font@, size2 as int, color@, mid.y));
        assert(self.state().pages =~= mid.pages);
    }

    /// Draws `text` wrapped to the page width.
    fn emit(&mut self, text: &str, font: &str, size2: i64, color: &str, lead: i64)
        requires
            old(self).ok(),
            0 < lead <= 1460,
            0 < size2 <= 1000,
        ensures
            final(self).ok(),
            final(self).y >= 104,
            final(self).state() == st_emit(old(self).state(), text@, font@, size2 as int, color@, lead as int),
    {
        let lines = pdf_wrap(text, size2 as u32);
        let ghost ls = lines@.map_values(|l: String| l@);
        let ghost st0 = self.state();
        let mut i: usize = 0;
        while i < lines.len()
            invariant
                i <= lines.len(),
                0 < lead <= 1460,
                0 < size2 <= 1000,
                ls == lines@.map_values(|l: String| l@),
                self.ok(),
                i > 0 ==> self.y >= 104,
                self.state() == st_lines(st0, ls.take(i as int), font@, size2 as int, color@, lead as int),
            decreases lines.len() - i,
        {
            self.line(lines[i].as_str(), font, size2, color, lead);
            proof {
                assert(ls.take(i + 1).drop_last() =~= ls.take(i as int));
            }
            i += 1;
        }
        assert(ls.take(lines.len() as int) =~= ls);
        proof {
            assert(lines.len() > 0) by {
                let w = wrapped(text@, size2 as nat);
                assert(ls == w);
            }
        }
    }

    fn space(&mut self, d: i64)
        requires
            old(self).ok(),
            0 <= d <= old(self).y,
        ensures
            final(self).ok(),
            final(self).state() == st_space(old(self).state(), d as int),
    {
        self.y = self.y - d;
    }

    /// The finished pages.
    pub fn finish(self) -> (pages: Vec<PdfPage>)
        ensures
            pages@.map_values(|p: PdfPage| p.content@) == self.state().pages.push(self.state().cur),
    {
        let mut out: Vec<PdfPage> = Vec::new();
        let mut i: usize = 0;
        while i < self.pages.len()
            invariant
                i <= self.pages.len(),
                out@.map_values(|p: PdfPage| p.content@) == self.state().pages.take(i as int),
            decreases self.pages.len() - i,
        {
            let ghost before = out@;
            out.push(PdfPage { content: self.pages[i].clone() });
            assert(out@.map_values(|p: PdfPage| p.content@) =~= before.map_values(|p: PdfPage| p.content@).push(self.pages@[i as int]@));
            assert(self.state().pages.take(i + 1) =~= self.state().pages.take(i as int).push(self.pages@[i as int]@));
            i += 1;
        }
        assert(self.state().pages.take(self.pages.len() as int) =~= self.state().pages);
        let ghost before = out@;
        out.push(PdfPage { content: self.cur });
        assert(out@.map_values(|p: PdfPage| p.content@) =~= before.map_values(|p: PdfPage| p.content@).push(self.state().cur));
        out
    }
}

/// One page's drawing operations.
pub struct PdfPage {
    pub content: String,
}

// ---------------------------------------------------------------------------
// The campaign's platform copy
// ---------------------------------------------------------------------------

/// A key and, when its value is text, that text.
pub struct CopyPair {
    pub key: String,
    pub text: Option<String>,
}

/// An item of a list field.
pub enum CopyItem {
    Text(String),
    Pairs(Vec<CopyPair>),
    Other,
}

/// The value of a field of a platform's copy.
pub enum CopyValue {
    Text(String),
    List(Vec<CopyItem>),
    Pairs(Vec<CopyPair>),
    Other,
}

pub struct CopyField {
    pub key: String,
    pub value: CopyValue,
}

/// A platform and its fields (none when its copy is not a set of fields).
pub struct PlatformEntry {
    pub name: String,
    pub fields: Option<Vec<CopyField>>,
}

/// The `platform_copy` of a campaign: its entries in key order, and the
/// entries under a `platforms` key when that holds a set of fields.
pub struct PlatformCopy {
    pub entries: Vec<PlatformEntry>,
    pub nested: Option<Vec<PlatformEntry>>,
}

/// Keys that describe the campaign rather than a platform.
pub open spec fn is_meta(k: Seq<char>) -> bool {
    k == "audience"@ || k == "campaign"@ || k == "goal"@ || k == "tone"@ || k == "source"@ || k == "core_message"@ || k == "cta"@
}

/// The platforms the PDF shows: those under `platforms` when it holds a set of
/// fields, else the top-level entries but `platforms`; description keys are
/// left out either way.
pub open spec fn sections(pc: PlatformCopy) -> Seq<PlatformEntry> {
    let base = match pc.nested {
        Some(n) => n@,
        None => pc.entries@.filter(|e: PlatformEntry| e.name@ != "platforms"@),
    };
    base.filter(|e: PlatformEntry| !is_meta(e.name@))
}

/// A key shown as a label: underscores as spaces, upper-cased.
pub open spec fn label_of(key: Seq<char>) -> Seq<char> {
    uppercase(replace_all(key, "_"@, " "@))
}

pub open spec fn spaced_key(key: Seq<char>) -> Seq<char> {
    replace_all(key, "_"@, " "@)
}

/// A list item of key/value pairs on one line: `key: value | key: value`.
pub open spec fn pairs_line(ps: Seq<CopyPair>) -> Seq<char>
    decreases ps.len(),
{
    if ps.len() == 0 {
        seq![]
    } else {
        let p = ps.last();
        let one = spaced_key(p.key@) + ": "@ + (match p.text { Some(t) => t@, None => ""@ });
        if ps.len() == 1 { one } else { pairs_line(ps.drop_last()) + " | "@ + one }
    }
}

/// The lines of a pairs field: `  key: value` for each text value.
pub open spec fn pair_lines(ps: Seq<CopyPair>) -> Seq<Seq<char>>
    decreases ps.len(),
{
    if ps.len() == 0 {
        seq![]
    } else {
        let prev = pair_lines(ps.drop_last());
        match ps.last().text {
            Some(t) => prev.push("  "@ + spaced_key(ps.last().key@) + ": "@ + t@),
            None => prev,
        }
    }
}

/// Lines joined by line breaks.
pub open spec fn join_nl(ls: Seq<Seq<char>>) -> Seq<char>
    decreases ls.len(),
{
    if ls.len() == 0 { seq![] } else if ls.len() == 1 { ls[0] } else { join_nl(ls.drop_last()) + "\n"@ + ls.last() }
}

pub open spec fn pairs_block(ps: Seq<CopyPair>) -> Seq<char> {
    join_nl(pair_lines(ps))
}

/// The header of a platform's section: a new page when less than 172 pt are
/// left, its name in capitals, and a short rose bar under it.
pub open spec fn st_section(st: LayoutState, platform: Seq<char>) -> LayoutState {
    let s1 = if st.y < 344 { st_new_page(st) } else { st_space(st, 32) };
    let s2 = st_space(st_emit(s1, uppercase(platform), "/F2"@, 30, rose(), 38), 12);
    LayoutState { cur: s2.cur + rose() + " rg\n52 "@ + halfpt(s2.y) + " 60 3 re f\n"@, y: s2.y - 28, ..s2 }
}

/// Room for a field: a new page when less than 40 pt are left, else a gap.
pub open spec fn st_field_gap(st: LayoutState) -> LayoutState {
    if st.y < 184 { st_new_page(st) } else { st_space(st, 16) }
}

pub open spec fn st_items(st: LayoutState, items: Seq<CopyItem>) -> LayoutState
    decreases items.len(),
{
    if items.len() == 0 {
        st
    } else {
        let prev = st_items(st, items.drop_last());
        match items.last() {
            CopyItem::Text(t) => st_emit(prev, "  - "@ + t@, "/F1"@, 21, dark(), 29),
            CopyItem::Pairs(ps) => st_emit(prev, pairs_line(ps@), "/F1"@, 21, dark(), 29),
            CopyItem::Other => prev,
        }
    }
}

pub open spec fn st_emit_each(st: LayoutState, lines: Seq<Seq<char>>) -> LayoutState
    decreases lines.len(),
{
    if lines.len() == 0 { st } else { st_emit(st_emit_each(st, lines.drop_last()), lines.last(), "/F1"@, 21, dark(), 28) }
}

/// One field of a platform's copy: its label, then its text, its list items
/// or its pairs; empty values and other kinds of value are skipped.
pub open spec fn st_field(st: LayoutState, f: CopyField) -> LayoutState {
    let label = label_of(f.key@);
    match f.value {
        CopyValue::Text(t) => if t@.len() == 0 { st } else {
            st_emit(st_emit(st_field_gap(st), label, "/F2"@, 20, accent(), 26), t@, "/F1"@, 21, dark(), 29)
        },
        CopyValue::List(items) => if items@.len() == 0 { st } else {
            st_items(st_emit(st_field_gap(st), label, "/F2"@, 20, accent(), 26), items@)
        },
        CopyValue::Pairs(ps) => if ps@.len() == 0 { st } else {
            st_emit_each(st_emit(st_field_gap(st), label, "/F2"@, 20, accent(), 26), split_char(pairs_block(ps@), '\n'))
        },
        CopyValue::Other => st,
    }
}

pub open spec fn st_fields(st: LayoutState, fs: Seq<CopyField>) -> LayoutState
    decreases fs.len(),
{
    if fs.len() == 0 { st } else { st_field(st_fields(st, fs.drop_last()), fs.last()) }
}

pub open spec fn st_platform(st: LayoutState, e: PlatformEntry) -> LayoutState {
    let s = st_section(st, e.name@);
    match e.fields {
        Some(fs) => st_fields(s, fs@),
        None => st_emit(s, "(no content)"@, "/F1"@, 21, muted(), 28),
    }
}

pub open spec fn st_platforms(st: LayoutState, es: Seq<PlatformEntry>) -> LayoutState
    decreases es.len(),
{
    if es.len() == 0 { st } else { st_platform(st_platforms(st, es.drop_last()), es.last()) }
}

/// All platform content under its heading (nothing when there is none).
pub open spec fn st_emit_all(st: LayoutState, pc: PlatformCopy) -> LayoutState {
    let secs = sections(pc);
    if secs.len() == 0 { st } else { st_platforms(st_emit(st, "PLATFORM CONTENT"@, "/F2"@, 26, rose(), 36), secs) }
}

/// The campaign title under the brand bar.
pub open spec fn st_header(st: LayoutState, campaign: Seq<char>) -> LayoutState {
    st_space(st_emit(st_space(st, 124), campaign, "/F2"@, 44, dark(), 52), 20)
}

fn spaced_key_string(key: &str) -> (r: String)
    ensures
        r@ == spaced_key(key@),
{
    proof {
        reveal_strlit("_");
    }
    str_replace(key, "_", " ")
}

fn label_string(key: &str) -> (r: String)
    ensures
        r@ == label_of(key@),
{
    let k = spaced_key_string(key);
    to_upper(k.as_str())
}

fn pairs_line_string(ps: &Vec<CopyPair>) -> (r: String)
    ensures
        r@ == pairs_line(ps@),
{
    let mut out = String::new();
    let mut i: usize = 0;
    while i < ps.len()
        invariant
            i <= ps.len(),
            out@ == pairs_line(ps@.take(i as int)),
        decreases ps.len() - i,
    {
        if i > 0 {
            push_str(&mut out, " | ");
        }
        let k = spaced_key_string(ps[i].key.as_str());
        push_str(&mut out, k.as_str());
        push_str(&mut out, ": ");
        match &ps[i].text {
            Some(t) => push_str(&mut out, t.as_str()),
            None => {
                proof { reveal_strlit(""); }
                push_str(&mut out, "");
            }
        }
        proof {
            assert(ps@.take(i + 1).drop_last() =~= ps@.take(i as int));
            if i == 0 {
                assert(pairs_line(ps@.take(0)) =~= Seq::<char>::empty());
            }
        }
        i += 1;
    }
    assert(ps@.take(ps.len() as int) =~= ps@);
    out
}

fn pairs_block_string(ps: &Vec<CopyPair>) -> (r: String)
    ensures
        r@ == pairs_block(ps@),
{
    let mut lines: Vec<String> = Vec::new();
    let mut i: usize = 0;
    while i < ps.len()
        invariant
            i <= ps.len(),
            lines@.map_values(|l: String| l@) == pair_lines(ps@.take(i as int)),
        decreases ps.len() - i,
    {
        proof {
            assert(ps@.take(i + 1).drop_last() =~= ps@.take(i as int));
        }
        match &ps[i].text {
            Some(t) => {
                let mut l = owned("  ");
                let k = spaced_key_string(ps[i].key.as_str());
                push_str(&mut l, k.as_str());
                push_str(&mut l, ": ");
                push_str(&mut l, t.as_str());
                let ghost before = lines@;
                lines.push(l);
                assert(lines@.map_values(|l: String| l@) =~= before.map_values(|l: String| l@).push(l@));
            }
            None => {}
        }
        i += 1;
    }
    assert(ps@.take(ps.len() as int) =~= ps@);
    let ghost ls = lines@.map_values(|l: String| l@);
    let mut out = String::new();
    let mut j: usize = 0;
    while j < lines.len()
        invariant
            j <= lines.len(),
            ls == lines@.map_values(|l: String| l@),
            out@ == join_nl(ls.take(j as int)),
        decreases lines.len() - j,
    {
        if j > 0 {
            push_str(&mut out, "\n");
        }
        push_str(&mut out, lines[j].as_str());
        proof {
            assert(ls.take(j + 1).drop_last() =~= ls.take(j as int));
            if j == 0 {
                assert(join_nl(ls.take(0)) =~= Seq::<char>::empty());
            }
        }
        j += 1;
    }
    assert(ls.take(lines.len() as int) =~= ls);
    out
}

impl PdfDoc {
    /// The campaign title under the brand bar.
    pub fn header(&mut self, campaign: &str)
        requires
            old(self).ok(),
            old(self).state().y >= 124,
        ensures
            final(self).ok(),
            final(self).state() == st_header(old(self).state(), campaign@),
    {
        self.space(124);
        self.emit(campaign, "/F2", 44, "0.07 0.07 0.09", 52);
        self.space(20);
    }

    fn section(&mut self, platform: &str)
        requires
            old(self).ok(),
        ensures
            final(self).ok(),
            final(self).state() == st_section(old(self).state(), platform@),
    {
        if self.y < 344 {
            self.new_page();
        } else {
            self.space(32);
        }
        let up = to_upper(platform);
        self.emit(up.as_str(), "/F2", 30, "0.956 0.247 0.369", 38);
        self.space(12);
        let ghost mid = self.state();
        push_str(&mut self.cur, "0.956 0.247 0.369");
        push_str(&mut self.cur, " rg\n52 ");
        push_halfpt(&mut self.cur, self.y);
        push_str(&mut self.cur, " 60 3 re f\n");
        self.y = self.y - 28;
        assert(self.state().cur =~= mid.cur + rose() + " rg\n52 "@ + halfpt(mid.y) + " 60 3 re f\n"@);
    }

    fn field_gap(&mut self)
        requires
            old(self).ok(),
        ensures
            final(self).ok(),
            final(self).state() == st_field_gap(old(self).state()),
    {
        if self.y < 184 {
            self.new_page();
        } else {
            self.space(16);
        }
    }

    fn items(&mut self, items: &Vec<CopyItem>)
        requires
            old(self).ok(),
        ensures
            final(self).ok(),
            final(self).state() == st_items(old(self).state(), items@),
    {
        let ghost st0 = self.state();
        let mut i: usize = 0;
        while i < items.len()
            invariant
                i <= items.len(),
                self.ok(),
                self.state() == st_items(st0, items@.take(i as int)),
            decreases items.len() - i,
        {
            proof {
                assert(items@.take(i + 1).drop_last() =~= items@.take(i as int));
            }
            match &items[i] {
                CopyItem::Text(t) => {
                    let mut l = owned("  - ");
                    push_str(&mut l, t.as_str());
                    self.emit(l.as_str(), "/F1", 21, "0.07 0.07 0.09", 29);
                }
                CopyItem::Pairs(ps) => {
                    let l = pairs_line_string(ps);
                    self.emit(l.as_str(), "/F1", 21, "0.07 0.07 0.09", 29);
                }
                CopyItem::Other => {}
            }
            i += 1;
        }
        assert(items@.take(items.len() as int) =~= items@);
    }

    fn emit_each(&mut self, lines: &Vec<Vec<char>>)
        requires
            old(self).ok(),
        ensures
            final(self).ok(),
            final(self).state() == st_emit_each(old(self).state(), lines@.map_values(|l: Vec<char>| l@)),
    {
        let ghost ls = lines@.map_values(|l: Vec<char>| l@);
        let ghost st0 = self.state();
        let mut i: usize = 0;
        while i < lines.len()
            invariant
                i <= lines.len(),
                ls == lines@.map_values(|l: Vec<char>| l@),
                self.ok(),
                self.state() == st_emit_each(st0, ls.take(i as int)),
            decreases lines.len() - i,
        {
            proof {
                assert(ls.take(i + 1).drop_last() =~= ls.take(i as int));
            }
            let t = string_of(&lines[i]);
            self.emit(t.as_str(), "/F1", 21, "0.07 0.07 0.09", 28);
            i += 1;
        }
        assert(ls.take(lines.len() as int) =~= ls);
    }

    /// One field of a platform's copy.
    fn field(&mut self, f: &CopyField)
        requires
            old(self).ok(),
        ensures
            final(self).ok(),
            final(self).state() == st_field(old(self).state(), *f),
    {
        match &f.value {
            CopyValue::Text(t) => {
                if t.as_str().is_empty() {
                    return;
                }
                self.field_gap();
                let label = label_string(f.key.as_str());
                self.emit(label.as_str(), "/F2", 20, "0.988 0.443 0.522", 26);
                self.emit(t.as_str(), "/F1", 21, "0.07 0.07 0.09", 29);
            }
            CopyValue::List(items) => {
                if items.len() == 0 {
                    return;
                }
                self.field_gap();
                let label = label_string(f.key.as_str());
                self.emit(label.as_str(), "/F2", 20, "0.988 0.443 0.522", 26);
                self.items(items);
            }
            CopyValue::Pairs(ps) => {
                if ps.len() == 0 {
                    return;
                }
                self.field_gap();
                let label = label_string(f.key.as_str());
                self.emit(label.as_str(), "/F2", 20, "0.988 0.443 0.522", 26);
                let block = pairs_block_string(ps);
                let cs = chars_of(block.as_str());
                let lines = split_on(&cs, '\n');
                assert(lines@.map_values(|l: Vec<char>| l@) =~= split_char(pairs_block(ps@), '\n'));
                self.emit_each(&lines);
            }
            CopyValue::Other => {}
        }
    }

    fn platform(&mut self, e: &PlatformEntry)
        requires
            old(self).ok(),
        ensures
            final(self).ok(),
            final(self).state() == st_platform(old(self).state(), *e),
    {
        self.section(e.name.as_str());
        match &e.fields {
            Some(fs) => {
                let ghost st0 = self.state();
                let mut i: usize = 0;
                while i < fs.len()
                    invariant
                        i <= fs.len(),
                        self.ok(),
                        self.state() == st_fields(st0, fs@.take(i as int)),
                    decreases fs.len() - i,
                {
                    proof {
                        assert(fs@.take(i + 1).drop_last() =~= fs@.take(i as int));
                    }
                    self.field(&fs[i]);
                    i += 1;
                }
                assert(fs@.take(fs.len() as int) =~= fs@);
            }
            None => {
                self.emit("(no content)", "/F1", 21, "0.42 0.42 0.47", 28);
            }
        }
    }

    /// All platform content.
    pub fn emit_all(&mut self, pc: &PlatformCopy)
        requires
            old(self).ok(),
        ensures
            final(self).ok(),
            final(self).state() == st_emit_all(old(self).state(), *pc),
    {
        let secs = platform_sections(pc);
        if secs.len() == 0 {
            return;
        }
        self.emit("PLATFORM CONTENT", "/F2", 26, "0.956 0.247 0.369", 36);
        let ghost st0 = self.state();
        let ghost sv = secs@.map_values(|e: &PlatformEntry| *e);
        let mut i: usize = 0;
        while i < secs.len()
            invariant
                i <= secs.len(),
                self.ok(),
                sv == secs@.map_values(|e: &PlatformEntry| *e),
                self.state() == st_platforms(st0, sv.take(i as int)),
            decreases secs.len() - i,
        {
            proof {
                assert(sv.take(i + 1).drop_last() =~= sv.take(i as int));
                assert(sv.take(i + 1).last() == *secs@[i as int]);
            }
            self.platform(secs[i]);
            i += 1;
        }
        proof {
            assert(sv.take(secs.len() as int) =~= sv);
        }
    }
}

/// The platforms shown, as references into the copy.
fn platform_sections(pc: &PlatformCopy) -> (r: Vec<&PlatformEntry>)
    ensures
        r@.map_values(|e: &PlatformEntry| *e) == sections(*pc),
{
    let ghost meta = |e: PlatformEntry| !is_meta(e.name@);
    let ghost not_platforms = |e: PlatformEntry| e.name@ != "platforms"@;
    let mut base: Vec<&PlatformEntry> = Vec::new();
    match &pc.nested {
        Some(n) => {
            let mut i: usize = 0;
            while i < n.len()
                invariant
                    i <= n.len(),
                    base@.map_values(|e: &PlatformEntry| *e) == n@.take(i as int),
                decreases n.len() - i,
            {
                let ghost before = base@;
                base.push(&n[i]);
                assert(base@.map_values(|e: &PlatformEntry| *e) =~= before.map_values(|e: &PlatformEntry| *e).push(n@[i as int]));
                assert(n@.take(i + 1) =~= n@.take(i as int).push(n@[i as int]));
                i += 1;
            }
            assert(n@.take(n.len() as int) =~= n@);
        }
        None => {
            let es = &pc.entries;
            let mut i: usize = 0;
            while i < es.len()
                invariant
                    i <= es.len(),
                    not_platforms == (|e: PlatformEntry| e.name@ != "platforms"@),
                    base@.map_values(|e: &PlatformEntry| *e) == es@.take(i as int).filter(not_platforms),
                decreases es.len() - i,
            {
                proof {
                    assert(es@.take(i + 1) =~= es@.take(i as int).push(es@[i as int]));
                    es@.take(i as int).lemma_filter_push(es@[i as int], not_platforms);
                }
                let ghost before = base@;
                if !crate::text::str_eq(es[i].name.as_str(), "platforms") {
                    base.push(&es[i]);
                    assert(base@.map_values(|e: &PlatformEntry| *e) =~= before.map_values(|e: &PlatformEntry| *e).push(es@[i as int]));
                }
                i += 1;
            }
            assert(es@.take(es.len() as int) =~= es@);
        }
    }
    let ghost b = base@.map_values(|e: &PlatformEntry| *e);
    let mut r: Vec<&PlatformEntry> = Vec::new();
    let mut j: usize = 0;
    while j < base.len()
        invariant
            j <= base.len(),
            b == base@.map_values(|e: &PlatformEntry| *e),
            meta == (|e: PlatformEntry| !is_meta(e.name@)),
            r@.map_values(|e: &PlatformEntry| *e) == b.take(j as int).filter(meta),
        decreases base.len() - j,
    {
        proof {
            assert(b.take(j + 1) =~= b.take(j as int).push(b[j as int]));
            b.take(j as int).lemma_filter_push(b[j as int], meta);
        }
        let n = base[j].name.as_str();
        let is_m = crate::text::str_eq(n, "audience") || crate::text::str_eq(n, "campaign") || crate::text::str_eq(n, "goal")
            || crate::text::str_eq(n, "tone") || crate::text::str_eq(n, "source") || crate::text::str_eq(n, "core_message")
            || crate::text::str_eq(n, "cta");
        let ghost before = r@;
        if !is_m {
            r.push(base[j]);
            assert(r@.map_values(|e: &PlatformEntry| *e) =~= before.map_values(|e: &PlatformEntry| *e).push(b[j as int]));
        }
        j += 1;
    }
    assert(b.take(base.len() as int) =~= b);
    r
}

// ---------------------------------------------------------------------------
// The PDF file
// ---------------------------------------------------------------------------

/// The logo image: JPEG bytes and their pixel size.
pub struct Logo {
    pub bytes: Vec<u8>,
    pub width: u32,
    pub height: u32,
}

/// Appends the UTF-8 bytes of a string.
pub fn push_bytes(out: &mut Vec<u8>, s: &str)
    ensures
        final(out)@ == old(out)@ + utf8(s@),
{
    let b = s.as_bytes();
    let ghost o = out@;
    let mut i: usize = 0;
    while i < b.len()
        invariant
            i <= b.len(),
            b@ == utf8(s@),
            out@ == o + b@.take(i as int),
        decreases b.len() - i,
    {
        out.push(b[i]);
        i += 1;
        assert(b@.take(i as int) =~= b@.take(i - 1).push(b@[i - 1]));
    }
    assert(b@.take(b.len() as int) =~= b@);
}

/// Appends raw bytes.
pub fn push_raw(out: &mut Vec<u8>, b: &Vec<u8>)
    ensures
        final(out)@ == old(out)@ + b@,
{
    let ghost o = out@;
    let mut i: usize = 0;
    while i < b.len()
        invariant
            i <= b.len(),
            out@ == o + b@.take(i as int),
        decreases b.len() - i,
    {
        out.push(b[i]);
        i += 1;
        assert(b@.take(i as int) =~= b@.take(i - 1).push(b@[i - 1]));
    }
    assert(b@.take(b.len() as int) =~= b@);
}

fn push_number(out: &mut Vec<u8>, n: u64)
    ensures
        final(out)@ == old(out)@ + utf8(decimal(n as nat)),
{
    let d = crate::text::decimal_string(n);
    push_bytes(out, d.as_str());
}

/// `" 0 R "` references to the page objects, numbered from 3.
pub open spec fn kids(n: nat) -> Seq<char>
    decreases n,
{
    if n == 0 { seq![] } else { kids((n - 1) as nat) + decimal((3 + n - 1) as nat) + " 0 R "@ }
}

pub open spec fn catalog_obj() -> Seq<u8> {
    utf8("<< /Type /Catalog /Pages 2 0 R >>"@)
}

pub open spec fn pages_obj(n: nat) -> Seq<u8> {
    utf8("<< /Type /Pages /Kids ["@ + kids(n) + "] /Count "@ + decimal(n) + " >>"@)
}

/// The resources of every page: the two fonts, and the logo when there is one.
pub open spec fn resources(n: nat, has_logo: bool) -> Seq<char> {
    "/Font << /F1 "@ + decimal(3 + n) + " 0 R /F2 "@ + decimal(4 + n) + " 0 R >>"@
        + (if has_logo { " /XObject << /Im1 "@ + decimal(5 + n) + " 0 R >>"@ } else { ""@ })
}

/// The first content stream's object number.
pub open spec fn content_base(n: nat, has_logo: bool) -> nat {
    if has_logo { 6 + n } else { 5 + n }
}

pub open spec fn page_obj(n: nat, has_logo: bool, i: nat) -> Seq<u8> {
    utf8("<< /Type /Page /Parent 2 0 R /MediaBox [0 0 612 842] /Resources << "@ + resources(n, has_logo)
        + " >> /Contents "@ + decimal(content_base(n, has_logo) + i) + " 0 R >>"@)
}

pub open spec fn font_obj(bold: bool) -> Seq<u8> {
    if bold {
        utf8("<< /Type /Font /Subtype /Type1 /BaseFont /Helvetica-Bold >>"@)
    } else {
        utf8("<< /Type /Font /Subtype /Type1 /BaseFont /Helvetica >>"@)
    }
}

pub open spec fn image_obj(bytes: Seq<u8>, w: nat, h: nat) -> Seq<u8> {
    utf8("<< /Type /XObject /Subtype /Image /Width "@ + decimal(w) + " /Height "@ + decimal(h)
        + " /ColorSpace /DeviceRGB /BitsPerComponent 8 /Filter /DCTDecode /Length "@ + decimal(bytes.len())
        + " >>\nstream\n"@) + bytes + utf8("\nendstream"@)
}

pub open spec fn stream_obj(body: Seq<u8>) -> Seq<u8> {
    utf8("<< /Length "@ + decimal(body.len()) + " >>\nstream\n"@) + body + utf8("\nendstream"@)
}

/// The objects of the file in order: catalog, page tree, pages, the two
/// fonts, the logo when there is one, and the pages' content streams.
pub open spec fn pdf_objects(pages: Seq<Seq<char>>, logo: Option<(Seq<u8>, nat, nat)>) -> Seq<Seq<u8>> {
    let n = pages.len();
    let has_logo = logo is Some;
    seq![catalog_obj(), pages_obj(n)] + Seq::new(n, |i: int| page_obj(n, has_logo, i as nat))
        + seq![font_obj(false), font_obj(true)]
        + (match logo { Some((b, w, h)) => seq![image_obj(b, w, h)], None => seq![] })
        + Seq::new(n, |i: int| stream_obj(utf8(pages[i])))
}

/// The line that opens object `k` (numbered from 1).
pub open spec fn obj_header(k: nat) -> Seq<u8> {
    utf8(decimal(k + 1) + " 0 obj\n"@)
}

/// The file up to the end of the first `k` objects.
pub open spec fn body_upto(objs: Seq<Seq<u8>>, k: int) -> Seq<u8>
    decreases k,
{
    if k <= 0 {
        utf8("%PDF-1.4\n"@)
    } else {
        body_upto(objs, k - 1) + obj_header((k - 1) as nat) + objs[k - 1] + utf8("\nendobj\n"@)
    }
}

/// The cross-reference lines of the first `k` objects: each one's byte offset,
/// ten digits wide.
pub open spec fn xref_lines(objs: Seq<Seq<u8>>, k: int) -> Seq<u8>
    decreases k,
{
    if k <= 0 {
        seq![]
    } else {
        xref_lines(objs, k - 1) + utf8(padded(body_upto(objs, k - 1).len(), 10) + " 00000 n \n"@)
    }
}

/// The whole file: header and objects, the cross-reference table, and the
/// trailer pointing at the table.
pub open spec fn pdf_file(objs: Seq<Seq<u8>>) -> Seq<u8> {
    let n = objs.len();
    let body = body_upto(objs, n as int);
    body + utf8("xref\n0 "@ + decimal(n + 1) + "\n0000000000 65535 f \n"@) + xref_lines(objs, n as int)
        + utf8("trailer\n<< /Size "@ + decimal(n + 1) + " /Root 1 0 R >>\nstartxref\n"@ + decimal(body.len()) + "\n%%EOF"@)
}

pub open spec fn logo_view(logo: Option<&Logo>) -> Option<(Seq<u8>, nat, nat)> {
    match logo {
        Some(l) => Some((l.bytes@, l.width as nat, l.height as nat)),
        None => None,
    }
}

fn pages_object(n: u64) -> (r: Vec<u8>)
    requires
        n < 0x1000_0000_0000,
    ensures
        r@ == pages_obj(n as nat),
{
    let mut kids_s = String::new();
    let mut i: u64 = 0;
    while i < n
        invariant
            i <= n,
            n < 0x1000_0000_0000,
            kids_s@ == kids(i as nat),
        decreases n - i,
    {
        let ghost before = kids_s@;
        let d = crate::text::decimal_string(3 + i);
        push_str(&mut kids_s, d.as_str());
        push_str(&mut kids_s, " 0 R ");
        i += 1;
        assert(kids_s@ =~= kids(i as nat));
    }
    let mut s = owned("<< /Type /Pages /Kids [");
    push_str(&mut s, kids_s.as_str());
    push_str(&mut s, "] /Count ");
    let d = crate::text::decimal_string(n);
    push_str(&mut s, d.as_str());
    push_str(&mut s, " >>");
    let mut r: Vec<u8> = Vec::new();
    push_bytes(&mut r, s.as_str());
    assert(r@ =~= pages_obj(n as nat));
    r
}

fn page_object(n: u64, has_logo: bool, i: u64) -> (r: Vec<u8>)
    requires
        n < 0x1000_0000_0000,
        i < n,
    ensures
        r@ == page_obj(n as nat, has_logo, i as nat),
{
    let mut s = owned("<< /Type /Page /Parent 2 0 R /MediaBox [0 0 612 842] /Resources << ");
    let ghost head = s@;
    push_str(&mut s, "/Font << /F1 ");
    push_str(&mut s, crate::text::decimal_string(3 + n).as_str());
    push_str(&mut s, " 0 R /F2 ");
    push_str(&mut s, crate::text::decimal_string(4 + n).as_str());
    push_str(&mut s, " 0 R >>");
    if has_logo {
        push_str(&mut s, " /XObject << /Im1 ");
        push_str(&mut s, crate::text::decimal_string(5 + n).as_str());
        push_str(&mut s, " 0 R >>");
    } else {
        proof { reveal_strlit(""); }
        push_str(&mut s, "");
    }
    assert(s@ =~= head + resources(n as nat, has_logo));
    push_str(&mut s, " >> /Contents ");
    let base: u64 = if has_logo { 6 + n } else { 5 + n };
    push_str(&mut s, crate::text::decimal_string(base + i).as_str());
    push_str(&mut s, " 0 R >>");
    let mut r: Vec<u8> = Vec::new();
    push_bytes(&mut r, s.as_str());
    assert(r@ =~= page_obj(n as nat, has_logo, i as nat));
    r
}

fn stream_object(body: &str) -> (r: Vec<u8>)
    ensures
        r@ == stream_obj(utf8(body@)),
{
    let mut s = owned("<< /Length ");
    push_str(&mut s, crate::text::decimal_string(byte_len(body) as u64).as_str());
    push_str(&mut s, " >>\nstream\n");
    let mut r: Vec<u8> = Vec::new();
    push_bytes(&mut r, s.as_str());
    push_bytes(&mut r, body);
    push_bytes(&mut r, "\nendstream");
    r
}

fn image_object(logo: &Logo) -> (r: Vec<u8>)
    ensures
        r@ == image_obj(logo.bytes@, logo.width as nat, logo.height as nat),
{
    let mut s = owned("<< /Type /XObject /Subtype /Image /Width ");
    push_str(&mut s, crate::text::decimal_string(logo.width as u64).as_str());
    push_str(&mut s, " /Height ");
    push_str(&mut s, crate::text::decimal_string(logo.height as u64).as_str());
    push_str(&mut s, " /ColorSpace /DeviceRGB /BitsPerComponent 8 /Filter /DCTDecode /Length ");
    push_str(&mut s, crate::text::decimal_string(logo.bytes.len() as u64).as_str());
    push_str(&mut s, " >>\nstream\n");
    let mut r: Vec<u8> = Vec::new();
    push_bytes(&mut r, s.as_str());
    push_raw(&mut r, &logo.bytes);
    push_bytes(&mut r, "\nendstream");
    r
}

fn objects_of(pages: &Vec<PdfPage>, logo: Option<&Logo>) -> (r: Vec<Vec<u8>>)
    requires
        pages.len() < 0x1000_0000_0000,
    ensures
        r@.map_values(|o: Vec<u8>| o@) == pdf_objects(pages@.map_values(|p: PdfPage| p.content@), logo_view(logo)),
        r.len() == 2 * pages.len() + 4 + (if logo is Some { 1int } else { 0int }),
{
    let n = pages.len() as u64;
    let has_logo = logo.is_some();
    let ghost pv = pages@.map_values(|p: PdfPage| p.content@);
    let mut r: Vec<Vec<u8>> = Vec::new();
    let mut cat: Vec<u8> = Vec::new();
    push_bytes(&mut cat, "<< /Type /Catalog /Pages 2 0 R >>");
    r.push(cat);
    r.push(pages_object(n));
    let ghost head = seq![catalog_obj(), pages_obj(n as nat)];
    assert(r@.map_values(|o: Vec<u8>| o@) =~= head);
    let mut i: u64 = 0;
    while i < n
        invariant
            i <= n == pages.len(),
            n < 0x1000_0000_0000,
            has_logo == logo.is_some(),
            r@.map_values(|o: Vec<u8>| o@) == head + Seq::new(i as nat, |k: int| page_obj(n as nat, has_logo, k as nat)),
        decreases n - i,
    {
        let ghost before = r@;
        r.push(page_object(n, has_logo, i));
        assert(r@.map_values(|o: Vec<u8>| o@) =~= before.map_values(|o: Vec<u8>| o@).push(page_obj(n as nat, has_logo, i as nat)));
        assert(Seq::new((i + 1) as nat, |k: int| page_obj(n as nat, has_logo, k as nat)) =~= Seq::new(i as nat, |k: int| page_obj(n as nat, has_logo, k as nat)).push(page_obj(n as nat, has_logo, i as nat)));
        i += 1;
    }
    let ghost mid = r@.map_values(|o: Vec<u8>| o@);
    let mut f1: Vec<u8> = Vec::new();
    push_bytes(&mut f1, "<< /Type /Font /Subtype /Type1 /BaseFont /Helvetica >>");
    let mut f2: Vec<u8> = Vec::new();
    push_bytes(&mut f2, "<< /Type /Font /Subtype /Type1 /BaseFont /Helvetica-Bold >>");
    r.push(f1);
    r.push(f2);
    if let Some(l) = logo {
        r.push(image_object(l));
    }
    let ghost mid2 = r@.map_values(|o: Vec<u8>| o@);
    assert(mid2 =~= mid + seq![font_obj(false), font_obj(true)] + (match logo_view(logo) { Some((b, w, h)) => seq![image_obj(b, w, h)], None => seq![] }));
    let mut j: usize = 0;
    while j < pages.len()
        invariant
            j <= pages.len(),
            pv == pages@.map_values(|p: PdfPage| p.content@),
            r@.map_values(|o: Vec<u8>| o@) == mid2 + Seq::new(j as nat, |k: int| stream_obj(utf8(pv[k]))),
        decreases pages.len() - j,
    {
        let ghost before = r@;
        r.push(stream_object(pages[j].content.as_str()));
        assert(r@.map_values(|o: Vec<u8>| o@) =~= before.map_values(|o: Vec<u8>| o@).push(stream_obj(utf8(pv[j as int]))));
        assert(Seq::new((j + 1) as nat, |k: int| stream_obj(utf8(pv[k]))) =~= Seq::new(j as nat, |k: int| stream_obj(utf8(pv[k]))).push(stream_obj(utf8(pv[j as int]))));
        j += 1;
    }
    assert(r@.map_values(|o: Vec<u8>| o@) =~= pdf_objects(pv, logo_view(logo)));
    r
}

/// Assembles the objects into a PDF file with its cross-reference table.
pub fn assemble_pdf(objs: &Vec<Vec<u8>>) -> (r: Vec<u8>)
    requires
        objs.len() < 0x1000_0000,
    ensures
        r@ == pdf_file(objs@.map_values(|o: Vec<u8>| o@)),
{
    let ghost ov = objs@.map_values(|o: Vec<u8>| o@);
    let mut pdf: Vec<u8> = Vec::new();
    push_bytes(&mut pdf, "%PDF-1.4\n");
    let mut offsets: Vec<usize> = Vec::new();
    let mut i: usize = 0;
    while i < objs.len()
        invariant
            i <= objs.len() < 0x1000_0000,
            ov == objs@.map_values(|o: Vec<u8>| o@),
            pdf@ == body_upto(ov, i as int),
            offsets.len() == i,
            forall|k: int| 0 <= k < i ==> #[trigger] offsets@[k] == body_upto(ov, k).len(),
        decreases objs.len() - i,
    {
        offsets.push(pdf.len());
        push_number(&mut pdf, (i + 1) as u64);
        push_bytes(&mut pdf, " 0 obj\n");
        push_raw(&mut pdf, &objs[i]);
        push_bytes(&mut pdf, "\nendobj\n");
        proof {
            crate::text::lemma_utf8_concat(decimal((i + 1) as nat), " 0 obj\n"@);
            assert(pdf@ =~= body_upto(ov, i + 1));
        }
        i += 1;
    }
    let xref = pdf.len();
    let n = objs.len();
    push_bytes(&mut pdf, "xref\n0 ");
    push_number(&mut pdf, (n + 1) as u64);
    push_bytes(&mut pdf, "\n0000000000 65535 f \n");
    let ghost table_head = pdf@;
    let mut k: usize = 0;
    while k < n
        invariant
            k <= n == offsets.len(),
            n == objs.len(),
            ov == objs@.map_values(|o: Vec<u8>| o@),
            forall|j: int| 0 <= j < n ==> #[trigger] offsets@[j] == body_upto(ov, j).len(),
            pdf@ == table_head + xref_lines(ov, k as int),
        decreases n - k,
    {
        let mut line: Vec<char> = Vec::new();
        push_padded(&mut line, offsets[k] as u64, 10);
        let ls = string_of(&line);
        push_bytes(&mut pdf, ls.as_str());
        push_bytes(&mut pdf, " 00000 n \n");
        proof {
            crate::text::lemma_utf8_concat(padded(offsets@[k as int] as nat, 10), " 00000 n \n"@);
            assert(line@ =~= padded(offsets@[k as int] as nat, 10));
            assert(pdf@ =~= table_head + xref_lines(ov, k + 1));
        }
        k += 1;
    }
    let mut tr = owned("trailer\n<< /Size ");
    push_str(&mut tr, crate::text::decimal_string((n + 1) as u64).as_str());
    push_str(&mut tr, " /Root 1 0 R >>\nstartxref\n");
    push_str(&mut tr, crate::text::decimal_string(xref as u64).as_str());
    push_str(&mut tr, "\n%%EOF");
    push_bytes(&mut pdf, tr.as_str());
    proof {
        crate::text::lemma_utf8_concat("xref\n0 "@, decimal((n + 1) as nat));
        crate::text::lemma_utf8_concat("xref\n0 "@ + decimal((n + 1) as nat), "\n0000000000 65535 f \n"@);
        assert(pdf@ =~= pdf_file(ov));
    }
    pdf
}

/// The campaign PDF from its pages and the optional logo.
pub fn build_campaign_pdf(pages: &Vec<PdfPage>, logo: Option<&Logo>) -> (r: Vec<u8>)
    requires
        pages.len() < 0x100_0000,
    ensures
        r@ == pdf_file(pdf_objects(pages@.map_values(|p: PdfPage| p.content@), logo_view(logo))),
{
    let objs = objects_of(pages, logo);
    assemble_pdf(&objs)
}

proof fn lemma_body_prefix(objs: Seq<Seq<u8>>, j: int, k: int)
    requires
        0 <= j <= k,
    ensures
        body_upto(objs, j).len() <= body_upto(objs, k).len(),
        body_upto(objs, k).subrange(0, body_upto(objs, j).len() as int) == body_upto(objs, j),
    decreases k - j,
{
    if j < k {
        lemma_body_prefix(objs, j, k - 1);
        let a = body_upto(objs, j);
        let b = body_upto(objs, k - 1);
        let c = body_upto(objs, k);
        assert(c.subrange(0, b.len() as int) =~= b);
        assert(c.subrange(0, a.len() as int) =~= b.subrange(0, a.len() as int));
    } else {
        assert(body_upto(objs, k).subrange(0, body_upto(objs, k).len() as int) =~= body_upto(objs, k));
    }
}

/// The cross-reference table is right: for every object, the offset the
/// table records (the length of the file before it) is where the object's
/// `N 0 obj` line stands in the file, and the trailer's `startxref` is where
/// the table begins.
pub proof fn lemma_xref_points_at_objects(objs: Seq<Seq<u8>>, k: int)
    requires
        0 <= k < objs.len(),
    ensures
        ({
            let file = pdf_file(objs);
            let off = body_upto(objs, k).len() as int;
            file.subrange(off, off + obj_header(k as nat).len()) == obj_header(k as nat)
        }),
        ({
            let file = pdf_file(objs);
            let x = body_upto(objs, objs.len() as int).len() as int;
            file.subrange(x, x + 5) == utf8("xref\n"@)
        }),
{
    let n = objs.len() as int;
    let file = pdf_file(objs);
    let body = body_upto(objs, n);
    lemma_body_prefix(objs, k + 1, n);
    let upto = body_upto(objs, k + 1);
    let off = body_upto(objs, k).len() as int;
    let h = obj_header(k as nat);
    assert(upto == body_upto(objs, k) + h + objs[k] + utf8("\nendobj\n"@));
    assert(file.subrange(0, body.len() as int) =~= body);
    assert(upto.subrange(off, off + h.len()) =~= h);
    assert(file.subrange(off, off + h.len()) =~= body.subrange(off, off + h.len()));
    assert(body.subrange(off, off + h.len()) =~= upto.subrange(off, off + h.len()));
    let tail = utf8("xref\n0 "@ + decimal((n + 1) as nat) + "\n0000000000 65535 f \n"@);
    crate::text::lemma_utf8_concat("xref\n"@, "0 "@ + decimal((n + 1) as nat) + "\n0000000000 65535 f \n"@);
    assert("xref\n0 "@ + decimal((n + 1) as nat) + "\n0000000000 65535 f \n"@ =~= "xref\n"@ + ("0 "@ + decimal((n + 1) as nat) + "\n0000000000 65535 f \n"@)) by {
        reveal_strlit("xref\n0 ");
        reveal_strlit("xref\n");
        reveal_strlit("0 ");
    }
    assert(utf8("xref\n"@).len() == 5) by {
        reveal_strlit("xref\n");
        vstd::utf8::is_ascii_chars_encode_utf8("xref\n"@);
    }
    assert(file.subrange(body.len() as int, body.len() as int + 5) =~= utf8("xref\n"@));
}


// ---------------------------------------------------------------------------
// Reading escaped text back
// ---------------------------------------------------------------------------

/// How a PDF reader takes the body of a literal string `( .. )` whose
/// brackets must all be escaped: `\\`, `\(` and `\)` stand for the character
/// after the back-slash; a bare bracket (which would nest or end the string)
/// or any other back-slash makes the body unreadable (`None`).
pub open spec fn read_literal(t: Seq<char>) -> Option<Seq<char>>
    decreases t.len(),
{
    if t.len() == 0 {
        Some(seq![])
    } else if t[0] == '\\' {
        if t.len() >= 2 && (t[1] == '\\' || t[1] == '(' || t[1] == ')') {
            match read_literal(t.skip(2)) {
                Some(rest) => Some(seq![t[1]] + rest),
                None => None,
            }
        } else {
            None
        }
    } else if t[0] == '(' || t[0] == ')' {
        None
    } else {
        match read_literal(t.skip(1)) {
            Some(rest) => Some(seq![t[0]] + rest),
            None => None,
        }
    }
}

/// The text with every character outside ASCII replaced by a space.
pub open spec fn ascii_text(s: Seq<char>) -> Seq<char> {
    s.map_values(|c: char| if (c as u32) < 128 { c } else { ' ' })
}

proof fn lemma_pdf_escaped_front(s: Seq<char>)
    requires
        s.len() > 0,
    ensures
        pdf_escaped(s) == pdf_char(s[0]) + pdf_escaped(s.drop_first()),
    decreases s.len(),
{
    if s.len() == 1 {
        assert(s.drop_last() =~= Seq::<char>::empty());
        assert(s.drop_first() =~= Seq::<char>::empty());
        assert(pdf_escaped(s) =~= pdf_char(s[0]) + pdf_escaped(s.drop_first()));
    } else {
        lemma_pdf_escaped_front(s.drop_last());
        assert(s.drop_last().drop_first() =~= s.drop_first().drop_last());
        assert(s.drop_first().last() == s.last());
        assert(pdf_escaped(s) =~= pdf_char(s[0]) + pdf_escaped(s.drop_first()));
    }
}

/// Escaped text is a well-formed literal body that reads back as the text
/// (characters outside ASCII as spaces): no bracket is left bare, so none
/// can end the string early.
pub proof fn lemma_pdf_escape_reads_back(s: Seq<char>)
    ensures
        read_literal(pdf_escaped(s)) == Some(ascii_text(s)),
    decreases s.len(),
{
    if s.len() == 0 {
        assert(ascii_text(s) =~= Seq::<char>::empty());
    } else {
        lemma_pdf_escaped_front(s);
        lemma_pdf_escape_reads_back(s.drop_first());
        let c = s[0];
        let rest = pdf_escaped(s.drop_first());
        let t = pdf_char(c) + rest;
        assert(ascii_text(s) =~= seq![ascii_text(s)[0]] + ascii_text(s.drop_first()));
        if c == '\\' || c == '(' || c == ')' {
            assert(t.skip(2) =~= rest);
        } else {
            assert(t.skip(1) =~= rest);
        }
    }
}

} // verus!
