use vstd::prelude::*;
use vstd::string::*;
use vstd::utf8::encode_utf8;

use crate::arena::{capture_bytes, span_score, span_score_spec, span_to_string, RawSpan};
use crate::checksum::{folded_prefix, folded_sum};
use crate::error::{DecodeError, ErrorKind, Result};
use crate::text::{chars_of, lossy_text, string_from_chars, utf8_lossy};
use crate::textops::{
    ascii_lower, char_runs, contains_chars, find_chars, find_eq, first_eq_from, lines_of,
    lower_chars, split_lines, trim, trim_chars, trim_class,
};

verus! {

/// A named section of a manifest and its `key = value` fields.
#[derive(Clone, Debug)]
pub struct ManifestSection {
    pub name: String,
    pub fields: Vec<(String, String)>,
}

/// A shelter exchange manifest.
#[derive(Clone, Debug)]
pub struct Manifest {
    pub site_id: String,
    pub incident: String,
    pub mode: String,
    pub rotation: bool,
    pub sections: Vec<ManifestSection>,
    safe_contact: Option<String>,
    contact_view: Option<RawSpan>,
    anchor_view: Option<RawSpan>,
}

/// What a section holds.
pub struct SectionModel {
    pub name: Seq<char>,
    pub fields: Seq<(Seq<char>, Seq<char>)>,
}

/// What a manifest holds.
pub struct ManifestModel {
    pub site_id: Seq<char>,
    pub incident: Seq<char>,
    pub mode: Seq<char>,
    pub rotation: bool,
    pub sections: Seq<SectionModel>,
    pub safe_contact: Option<Seq<char>>,
    pub contact_view: Option<Seq<u8>>,
    pub anchor_view: Option<Seq<u8>>,
}

/// The contents of a sequence of fields.
pub open spec fn fields_seq(v: Seq<(String, String)>) -> Seq<(Seq<char>, Seq<char>)> {
    v.map_values(|p: (String, String)| (p.0@, p.1@))
}

impl View for ManifestSection {
    type V = SectionModel;

    open spec fn view(&self) -> SectionModel {
        SectionModel { name: self.name@, fields: fields_seq(self.fields@) }
    }
}

/// The models of a sequence of sections.
pub open spec fn sections_seq(v: Seq<ManifestSection>) -> Seq<SectionModel> {
    v.map_values(|s: ManifestSection| s@)
}

/// The model of an optional string.
pub open spec fn opt_text(o: Option<String>) -> Option<Seq<char>> {
    match o {
        Some(s) => Some(s@),
        None => None,
    }
}

/// The model of an optional span.
pub open spec fn opt_span(o: Option<RawSpan>) -> Option<Seq<u8>> {
    match o {
        Some(s) => Some(s@),
        None => None,
    }
}

impl View for Manifest {
    type V = ManifestModel;

    closed spec fn view(&self) -> ManifestModel {
        ManifestModel {
            site_id: self.site_id@,
            incident: self.incident@,
            mode: self.mode@,
            rotation: self.rotation,
            sections: sections_seq(self.sections@),
            safe_contact: opt_text(self.safe_contact),
            contact_view: opt_span(self.contact_view),
            anchor_view: opt_span(self.anchor_view),
        }
    }
}

/// The empty manifest.
pub open spec fn empty_manifest() -> ManifestModel {
    ManifestModel {
        site_id: Seq::empty(),
        incident: Seq::empty(),
        mode: Seq::empty(),
        rotation: false,
        sections: Seq::empty(),
        safe_contact: None,
        contact_view: None,
        anchor_view: None,
    }
}

pub open spec fn word_root() -> Seq<char> {
    seq!['r', 'o', 'o', 't']
}

pub open spec fn word_site() -> Seq<char> {
    seq!['s', 'i', 't', 'e']
}

pub open spec fn word_site_id() -> Seq<char> {
    seq!['s', 'i', 't', 'e', '_', 'i', 'd']
}

pub open spec fn word_incident() -> Seq<char> {
    seq!['i', 'n', 'c', 'i', 'd', 'e', 'n', 't']
}

pub open spec fn word_mode() -> Seq<char> {
    seq!['m', 'o', 'd', 'e']
}

pub open spec fn word_rotation() -> Seq<char> {
    seq!['r', 'o', 't', 'a', 't', 'i', 'o', 'n']
}

pub open spec fn word_contact_rotation() -> Seq<char> {
    seq!['c', 'o', 'n', 't', 'a', 'c', 't', '_', 'r', 'o', 't', 'a', 't', 'i', 'o', 'n']
}

pub open spec fn word_contact() -> Seq<char> {
    seq!['c', 'o', 'n', 't', 'a', 'c', 't']
}

pub open spec fn word_anchor() -> Seq<char> {
    seq!['a', 'n', 'c', 'h', 'o', 'r']
}

pub open spec fn word_evac() -> Seq<char> {
    seq!['e', 'v', 'a', 'c']
}

/// A rotation value that switches rotation on: `yes`, `true`, `rotating` or `1`.
pub open spec fn is_rotating(v: Seq<char>) -> bool {
    v == seq!['y', 'e', 's'] || v == seq!['t', 'r', 'u', 'e'] || v == seq![
        'r',
        'o',
        't',
        'a',
        't',
        'i',
        'n',
        'g',
    ] || v == seq!['1']
}

/// The bytes `:field`, appended to a field contact.
pub open spec fn field_suffix() -> Seq<u8> {
    seq![0x3au8, 0x66, 0x69, 0x65, 0x6c, 0x64]
}

/// The effect of a field on the manifest: `site` or `site_id`, `incident` and `mode` set
/// their value; `rotation` or `contact_rotation` switch rotation on for a rotating value and
/// off otherwise; `contact` sets the contact, and a field contact (its UTF-8 bytes and
/// `:field`) when rotation is on or the folded sum of its bytes is 3 modulo 8; `anchor` sets
/// the anchor (its UTF-8 bytes) when these are more than 5 and the mode mentions `evac`.
pub open spec fn apply_field(m: ManifestModel, key: Seq<char>, value: Seq<char>) -> ManifestModel {
    if key == word_site() || key == word_site_id() {
        ManifestModel { site_id: value, ..m }
    } else if key == word_incident() {
        ManifestModel { incident: value, ..m }
    } else if key == word_mode() {
        ManifestModel { mode: value, ..m }
    } else if key == word_rotation() || key == word_contact_rotation() {
        ManifestModel { rotation: is_rotating(value), ..m }
    } else if key == word_contact() {
        let b = encode_utf8(value);
        ManifestModel {
            safe_contact: Some(value),
            contact_view: if m.rotation || folded_prefix(b, b.len() as int) & 7 == 3 {
                Some(b + field_suffix())
            } else {
                m.contact_view
            },
            ..m
        }
    } else if key == word_anchor() {
        let b = encode_utf8(value);
        if b.len() > 5 && contains_chars(m.mode, word_evac()) {
            ManifestModel { anchor_view: Some(b), ..m }
        } else {
            m
        }
    } else {
        m
    }
}

/// The error of a line that is neither blank, a comment, a section nor a field.
pub open spec fn lacks_key_error(line_no: int) -> DecodeError {
    DecodeError { kind: ErrorKind::InvalidText, offset: line_no as usize, detail: "manifest line lacks key" }
}

/// The manifest with the current section closed: it is kept when it has fields or is not the
/// unnamed root.
pub open spec fn close_section(m: ManifestModel, cur: SectionModel) -> ManifestModel {
    if cur.fields.len() > 0 || cur.name != word_root() {
        ManifestModel { sections: m.sections.push(cur), ..m }
    } else {
        m
    }
}

/// The effect of line `line_no`, trimmed: blank lines and `#` comments are skipped; `[name]`
/// closes the current section and opens `name` (brackets trimmed); `key = value` applies the
/// field (key trimmed and lower-cased, value trimmed) and records it in the current section;
/// any other line is refused.
#[verifier::opaque]
pub open spec fn parse_line(
    st: (ManifestModel, SectionModel),
    raw: Seq<char>,
    line_no: int,
) -> Result<(ManifestModel, SectionModel)> {
    let line = trim(raw);
    let (m, cur) = st;
    if line.len() == 0 || line[0] == '#' {
        Ok(st)
    } else if line[0] == '[' && line.last() == ']' {
        Ok((close_section(m, cur), SectionModel { name: trim_class(line, 1), fields: Seq::empty() }))
    } else {
        match first_eq_from(line, 0) {
            None => Err(lacks_key_error(line_no)),
            Some(k) => {
                let key = ascii_lower(trim(line.take(k)));
                let value = trim(line.skip(k + 1));
                Ok(
                    (
                        apply_field(m, key, value),
                        SectionModel { fields: cur.fields.push((key, value)), ..cur },
                    ),
                )
            },
        }
    }
}

/// The state after the first `n` lines.
pub open spec fn parse_lines(lines: Seq<Seq<char>>, n: int) -> Result<(ManifestModel, SectionModel)>
    decreases n,
{
    if n <= 0 {
        Ok((empty_manifest(), SectionModel { name: word_root(), fields: Seq::empty() }))
    } else {
        match parse_lines(lines, n - 1) {
            Ok(st) => parse_line(st, lines[n - 1], n - 1),
            Err(e) => Err(e),
        }
    }
}

proof fn lemma_parse_lines_err(lines: Seq<Seq<char>>, k: int, n: int)
    requires
        0 <= k <= n,
        parse_lines(lines, k) is Err,
    ensures
        parse_lines(lines, n) == parse_lines(lines, k),
    decreases n,
{
    if n > k {
        lemma_parse_lines_err(lines, k, n - 1);
    }
}

/// The lower-case hexadecimal digit of `v`, `v < 16`.
pub open spec fn hex_digit(v: u32) -> char {
    if v < 10 {
        ((v + 0x30) as u8) as char
    } else {
        ((v - 10 + 0x61) as u8) as char
    }
}

/// `site-` and the eight lower-case hexadecimal digits of `v`.
pub open spec fn default_site(v: u32) -> Seq<char> {
    seq!['s', 'i', 't', 'e', '-'] + Seq::new(8, |i: int| hex_digit((v >> ((28 - 4 * i) as u32)) & 0xf))
}

/// Finishing: the current section closed, and a site id made from the folded sum of the raw
/// bytes when none was given.
pub open spec fn finish(st: (ManifestModel, SectionModel), data: Seq<u8>) -> ManifestModel {
    let m = close_section(st.0, st.1);
    if m.site_id.len() == 0 {
        ManifestModel { site_id: default_site(folded_prefix(data, data.len() as int)), ..m }
    } else {
        m
    }
}

/// The manifest of `data`, given the text it decodes to.
pub open spec fn manifest_from_text(data: Seq<u8>, text: Seq<char>) -> Result<ManifestModel> {
    let lines = lines_of(text);
    match parse_lines(lines, lines.len() as int) {
        Ok(st) => Ok(finish(st, data)),
        Err(e) => Err(e),
    }
}

/// The manifest of `data`, read as UTF-8 with invalid sequences replaced.
pub open spec fn manifest_spec(data: Seq<u8>) -> Result<ManifestModel> {
    manifest_from_text(data, utf8_lossy(data))
}

/// The model of a manifest result.
pub open spec fn manifest_result(r: Result<Manifest>) -> Result<ManifestModel> {
    match r {
        Ok(m) => Ok(m@),
        Err(e) => Err(e),
    }
}

/// The contact to reach: with rotation on, the field contact read as text when there is one;
/// otherwise the contact as given.
pub open spec fn primary_contact_spec(m: ManifestModel) -> Option<Seq<char>> {
    if m.rotation {
        match m.contact_view {
            Some(b) => Some(utf8_lossy(b)),
            None => m.safe_contact,
        }
    } else {
        m.safe_contact
    }
}

/// The anchor score: when the mode mentions `evac`, the score of the anchor (zero without
/// one); otherwise the number of sections.
pub open spec fn anchor_score_spec(m: ManifestModel) -> u64 {
    if contains_chars(m.mode, word_evac()) {
        match m.anchor_view {
            Some(b) => span_score_spec(b),
            None => 0,
        }
    } else {
        m.sections.len() as u64
    }
}

fn word(w: &[char]) -> (v: Vec<char>)
    ensures
        v@ == w@,
{
    crate::textops::copy_chars(w, 0, w.len())
}

fn is_word(s: &Vec<char>, w: &[char]) -> (b: bool)
    ensures
        b == (s@ == w@),
{
    crate::textops::same_chars(s.as_slice(), w)
}

fn copy_string(s: &String) -> (c: String)
    ensures
        c@ == s@,
{
    s.clone()
}

impl Default for Manifest {
    fn default() -> (m: Self)
        ensures
            m@ == empty_manifest(),
    {
        let m = Manifest {
            site_id: String::new(),
            incident: String::new(),
            mode: String::new(),
            rotation: false,
            sections: Vec::new(),
            safe_contact: None,
            contact_view: None,
            anchor_view: None,
        };
        assert(m@.sections == Seq::<SectionModel>::empty());
        m
    }
}

impl Manifest {
    /// The site id, as the view holds it.
    pub fn site_id(&self) -> (t: &str)
        ensures
            t@ == self@.site_id,
    {
        self.site_id.as_str()
    }

    /// The incident, as the view holds it.
    pub fn incident(&self) -> (t: &str)
        ensures
            t@ == self@.incident,
    {
        self.incident.as_str()
    }

    /// The mode, as the view holds it.
    pub fn mode(&self) -> (t: &str)
        ensures
            t@ == self@.mode,
    {
        self.mode.as_str()
    }

    /// Whether contacts rotate, as the view holds it.
    pub fn rotation(&self) -> (b: bool)
        ensures
            b == self@.rotation,
    {
        self.rotation
    }

    /// The sections, as the view holds them.
    pub fn sections(&self) -> (v: &[ManifestSection])
        ensures
            sections_seq(v@) == self@.sections,
    {
        self.sections.as_slice()
    }

    fn apply_field(&mut self, key: &Vec<char>, value: &Vec<char>, value_text: &String)
        requires
            value_text@ == value@,
        ensures
            final(self)@ == apply_field(old(self)@, key@, value@),
    {
        let w_site: [char; 4] = ['s', 'i', 't', 'e'];
        let w_site_id: [char; 7] = ['s', 'i', 't', 'e', '_', 'i', 'd'];
        let w_incident: [char; 8] = ['i', 'n', 'c', 'i', 'd', 'e', 'n', 't'];
        let w_mode: [char; 4] = ['m', 'o', 'd', 'e'];
        let w_rotation: [char; 8] = ['r', 'o', 't', 'a', 't', 'i', 'o', 'n'];
        let w_contact_rotation: [char; 16] = [
            'c', 'o', 'n', 't', 'a', 'c', 't', '_', 'r', 'o', 't', 'a', 't', 'i', 'o', 'n',
        ];
        let w_contact: [char; 7] = ['c', 'o', 'n', 't', 'a', 'c', 't'];
        let w_anchor: [char; 6] = ['a', 'n', 'c', 'h', 'o', 'r'];
        let w_evac: [char; 4] = ['e', 'v', 'a', 'c'];
        let w_yes: [char; 3] = ['y', 'e', 's'];
        let w_true: [char; 4] = ['t', 'r', 'u', 'e'];
        let w_rotating: [char; 8] = ['r', 'o', 't', 'a', 't', 'i', 'n', 'g'];
        let w_one: [char; 1] = ['1'];
        assert(w_site@ == word_site());
        assert(w_site_id@ == word_site_id());
        assert(w_incident@ == word_incident());
        assert(w_mode@ == word_mode());
        assert(w_rotation@ == word_rotation());
        assert(w_contact_rotation@ == word_contact_rotation());
        assert(w_contact@ == word_contact());
        assert(w_anchor@ == word_anchor());
        assert(w_evac@ == word_evac());
        assert(w_yes@ == seq!['y', 'e', 's']);
        assert(w_true@ == seq!['t', 'r', 'u', 'e']);
        assert(w_rotating@ == seq!['r', 'o', 't', 'a', 't', 'i', 'n', 'g']);
        assert(w_one@ == seq!['1']);
        if is_word(key, &w_site) || is_word(key, &w_site_id) {
            self.site_id = copy_string(value_text);
        } else if is_word(key, &w_incident) {
            self.incident = copy_string(value_text);
        } else if is_word(key, &w_mode) {
            self.mode = copy_string(value_text);
        } else if is_word(key, &w_rotation) || is_word(key, &w_contact_rotation) {
            self.rotation = is_word(value, &w_yes) || is_word(value, &w_true) || is_word(
                value,
                &w_rotating,
            ) || is_word(value, &w_one);
        } else if is_word(key, &w_contact) {
            self.safe_contact = Some(copy_string(value_text));
            let bytes = value_text.as_str().as_bytes();
            if self.rotation || folded_sum(bytes) & 7 == 3 {
                let mut v = capture_bytes(bytes).bytes;
                v.push(0x3a);
                v.push(0x66);
                v.push(0x69);
                v.push(0x65);
                v.push(0x6c);
                v.push(0x64);
                assert(v@ == encode_utf8(value@) + field_suffix());
                self.contact_view = Some(RawSpan { bytes: v });
            }
        } else if is_word(key, &w_anchor) {
            let bytes = value_text.as_str().as_bytes();
            let mode = chars_of(self.mode.as_str());
            if bytes.len() > 5 && find_chars(mode.as_slice(), &w_evac) {
                self.anchor_view = Some(capture_bytes(bytes));
            }
        }
    }

    fn close_section(&mut self, cur: ManifestSection)
        ensures
            final(self)@ == close_section(old(self)@, cur@),
    {
        let root: [char; 4] = ['r', 'o', 'o', 't'];
        assert(root@ == word_root());
        let name = chars_of(cur.name.as_str());
        if cur.fields.len() > 0 || !is_word(&name, &root) {
            let ghost before = self.sections@;
            let ghost c = cur@;
            self.sections.push(cur);
            assert(sections_seq(self.sections@) == sections_seq(before).push(c));
        }
    }

    fn parse_line(&mut self, cur: &mut ManifestSection, raw: &Vec<char>, line_no: usize) -> (r: Result<()>)
        ensures
            match r {
                Ok(_) => parse_line((old(self)@, old(cur)@), raw@, line_no as int) == Ok::<
                    (ManifestModel, SectionModel),
                    DecodeError,
                >((final(self)@, final(cur)@)),
                Err(e) => parse_line((old(self)@, old(cur)@), raw@, line_no as int) == Err::<
                    (ManifestModel, SectionModel),
                    DecodeError,
                >(e),
            },
    {
        reveal(parse_line);
        let line = trim_chars(raw.as_slice(), 0);
        if line.len() == 0 || line[0] == '#' {
            return Ok(());
        }
        if line[0] == '[' && line[line.len() - 1] == ']' {
            let name = trim_chars(line.as_slice(), 1);
            let mut next = ManifestSection { name: string_from_chars(&name), fields: Vec::new() };
            assert(next@.fields == Seq::<(Seq<char>, Seq<char>)>::empty());
            std::mem::swap(cur, &mut next);
            self.close_section(next);
            return Ok(());
        }
        match find_eq(line.as_slice()) {
            None => Err(DecodeError::new(ErrorKind::InvalidText, line_no, "manifest line lacks key")),
            Some(k) => {
                let key_part = crate::textops::copy_chars(line.as_slice(), 0, k);
                let value_part = crate::textops::copy_chars(line.as_slice(), k + 1, line.len());
                assert(key_part@ == line@.take(k as int));
                assert(value_part@ == line@.skip(k + 1));
                let key = lower_chars(trim_chars(key_part.as_slice(), 0).as_slice());
                let value = trim_chars(value_part.as_slice(), 0);
                let value_text = string_from_chars(&value);
                self.apply_field(&key, &value, &value_text);
                let key_text = string_from_chars(&key);
                let ghost before = cur.fields@;
                cur.fields.push((key_text, value_text));
                assert(fields_seq(cur.fields@) == fields_seq(before).push((key@, value@)));
                Ok(())
            },
        }
    }

    /// The manifest of `data`, given `text`, what `data` decodes to as UTF-8.
    pub fn parse_decoded(data: &[u8], text: &str) -> (r: Result<Self>)
        ensures
            manifest_result(r) == manifest_from_text(data@, text@),
    {
        let chars = chars_of(text);
        let lines = split_lines(chars.as_slice());
        let ghost ls = lines_of(text@);
        let mut manifest = Manifest::default();
        let root: [char; 4] = ['r', 'o', 'o', 't'];
        assert(root@ == word_root());
        let mut current = ManifestSection { name: string_from_chars(&word(&root)), fields: Vec::new() };
        assert(current@.fields == Seq::<(Seq<char>, Seq<char>)>::empty());
        let mut i: usize = 0;
        while i < lines.len()
            invariant
                0 <= i <= lines@.len(),
                ls == lines_of(text@),
                char_runs(lines@) == ls,
                parse_lines(ls, i as int) == Ok::<(ManifestModel, SectionModel), DecodeError>(
                    (manifest@, current@),
                ),
            decreases lines@.len() - i,
        {
            assert(ls[i as int] == lines@[i as int]@);
            let ghost st = (manifest@, current@);
            match manifest.parse_line(&mut current, &lines[i], i) {
                Ok(_) => {},
                Err(e) => {
                    assert(parse_line(st, ls[i as int], i as int) == Err::<(ManifestModel, SectionModel), DecodeError>(e));
                    assert(parse_lines(ls, i + 1) == Err::<(ManifestModel, SectionModel), DecodeError>(e));
                    assert(ls.len() == lines@.len());
                    proof {
                        lemma_parse_lines_err(ls, i + 1, ls.len() as int);
                    }
                    return Err(e);
                },
            }
            i = i + 1;
        }
        manifest.close_section(current);
        if manifest.site_id.as_str().is_empty() {
            manifest.site_id = default_site_text(folded_sum(data));
        }
        Ok(manifest)
    }

    /// The manifest of `data`, read as UTF-8 with invalid sequences replaced.
    pub fn parse(data: &[u8]) -> (r: Result<Self>)
        ensures
            manifest_result(r) == manifest_spec(data@),
    {
        let text = lossy_text(data);
        Self::parse_decoded(data, text.as_str())
    }

    /// The contact to reach (see `primary_contact_spec`).
    pub fn primary_contact(&self) -> (r: Option<String>)
        ensures
            opt_text(r) == primary_contact_spec(self@),
    {
        if self.rotation {
            match &self.contact_view {
                Some(span) => Some(span_to_string(span)),
                None => match &self.safe_contact {
                    Some(s) => Some(copy_string(s)),
                    None => None,
                },
            }
        } else {
            match &self.safe_contact {
                Some(s) => Some(copy_string(s)),
                None => None,
            }
        }
    }

    /// The anchor score (see `anchor_score_spec`).
    pub fn anchor_score(&self) -> (s: u64)
        ensures
            s == anchor_score_spec(self@),
    {
        let w_evac: [char; 4] = ['e', 'v', 'a', 'c'];
        assert(w_evac@ == word_evac());
        let mode = chars_of(self.mode.as_str());
        if find_chars(mode.as_slice(), &w_evac) {
            match &self.anchor_view {
                Some(span) => span_score(span),
                None => 0,
            }
        } else {
            self.sections.len() as u64
        }
    }
}

/// The text `site-` and the eight lower-case hexadecimal digits of `v`.
fn default_site_text(v: u32) -> (s: String)
    ensures
        s@ == default_site(v),
{
    let mut chars: Vec<char> = Vec::new();
    chars.push('s');
    chars.push('i');
    chars.push('t');
    chars.push('e');
    chars.push('-');
    let mut i: u32 = 0;
    while i < 8
        invariant
            0 <= i <= 8,
            chars@ == seq!['s', 'i', 't', 'e', '-'] + Seq::new(
                i as nat,
                |k: int| hex_digit((v >> ((28 - 4 * k) as u32)) & 0xf),
            ),
        decreases 8 - i,
    {
        let sh: u32 = 28 - 4 * i;
        let nib = (v >> sh) & 0xf;
        assert(nib < 16) by (bit_vector)
            requires
                nib == (v >> sh) & 0xf,
        ;
        let c = if nib < 10 {
            ((nib + 0x30) as u8) as char
        } else {
            ((nib - 10 + 0x61) as u8) as char
        };
        chars.push(c);
        i = i + 1;
        assert(chars@ =~= seq!['s', 'i', 't', 'e', '-'] + Seq::new(
            i as nat,
            |k: int| hex_digit((v >> ((28 - 4 * k) as u32)) & 0xf),
        ));
    }
    string_from_chars(&chars)
}

/// The manifest of `data`.
pub fn parse_manifest(data: &[u8]) -> (r: Result<Manifest>)
    ensures
        manifest_result(r) == manifest_spec(data@),
{
    Manifest::parse(data)
}

} // verus!
