use vstd::prelude::*;
use vstd::string::*;

use crate::arena::{capture_bytes, span_to_string, spans_seq, RawSpan};
use crate::cursor::{le_u16, Cursor};
use crate::dictionary::{resolve_text, DictModel, Dictionary};
use crate::error::{eof_error, DecodeError, Result};
use crate::ops::{run_ops, skip_op, skip_unknown, step_result, OpStep};
use crate::text::{lossy_text, string_push, strings_seq, utf8_lossy};

verus! {

/// Report templates: tokens and retained texts, rendered into report lines.
#[derive(Clone, Debug)]
pub struct TemplateBook {
    tokens: Vec<String>,
    retained: Vec<RawSpan>,
    rendered: Vec<String>,
}

/// What a template book holds.
pub struct TemplateModel {
    pub tokens: Seq<Seq<char>>,
    pub retained: Seq<Seq<u8>>,
    pub rendered: Seq<Seq<char>>,
}

impl View for TemplateBook {
    type V = TemplateModel;

    closed spec fn view(&self) -> TemplateModel {
        TemplateModel {
            tokens: strings_seq(self.tokens@),
            retained: spans_seq(self.retained@),
            rendered: strings_seq(self.rendered@),
        }
    }
}

/// The empty template book.
pub open spec fn empty_templates() -> TemplateModel {
    TemplateModel { tokens: Seq::empty(), retained: Seq::empty(), rendered: Seq::empty() }
}

/// The bytes `:template`, appended to a retained literal.
pub open spec fn template_suffix() -> Seq<u8> {
    seq![0x3au8, 0x74, 0x65, 0x6d, 0x70, 0x6c, 0x61, 0x74, 0x65]
}

/// The first `n` tokens joined by single spaces.
pub open spec fn join_tokens(toks: Seq<Seq<char>>, n: int) -> Seq<char>
    decreases n,
{
    if n <= 0 {
        Seq::empty()
    } else if n == 1 {
        toks[0]
    } else {
        join_tokens(toks, n - 1) + seq![' '] + toks[n - 1]
    }
}

/// `line` followed, for each of the first `n` retained texts, by a space and the text.
pub open spec fn append_retained(line: Seq<char>, spans: Seq<Seq<u8>>, n: int) -> Seq<char>
    decreases n,
{
    if n <= 0 {
        line
    } else {
        append_retained(line, spans, n - 1) + seq![' '] + utf8_lossy(spans[n - 1])
    }
}

/// Rendering: the tokens joined by spaces, then each retained text after a space, kept as a
/// report line when not empty; the retained texts are dropped.
pub open spec fn render_spec(m: TemplateModel) -> TemplateModel {
    let line = append_retained(
        join_tokens(m.tokens, m.tokens.len() as int),
        m.retained,
        m.retained.len() as int,
    );
    TemplateModel {
        retained: Seq::empty(),
        rendered: if line.len() > 0 {
            m.rendered.push(line)
        } else {
            m.rendered
        },
        ..m
    }
}

/// One template operation at `p`: `0x70` adds a token (length byte and text); `0x71` retains
/// the UTF-8 bytes of the dictionary text of an alias; `0x72` retains a literal (length byte
/// and bytes) followed by `:template`; `0x73` renders; any other opcode skips up to 7 bytes.
pub open spec fn template_op(m: TemplateModel, dict: DictModel, d: Seq<u8>, p: int) -> (TemplateModel, Result<int>) {
    let op = d[p];
    let q = p + 1;
    if op == 0x70 {
        if q + 1 > d.len() {
            (m, Err(eof_error(q)))
        } else if q + 1 + d[q] > d.len() {
            (m, Err(eof_error(q + 1)))
        } else {
            (
                TemplateModel { tokens: m.tokens.push(utf8_lossy(d.subrange(q + 1, q + 1 + d[q]))), ..m },
                Ok(q + 1 + d[q]),
            )
        }
    } else if op == 0x71 {
        if q + 2 > d.len() {
            (m, Err(eof_error(q)))
        } else {
            match resolve_text(dict, le_u16(d, q)) {
                Some(t) => (
                    TemplateModel { retained: m.retained.push(vstd::utf8::encode_utf8(t)), ..m },
                    Ok(q + 2),
                ),
                None => (m, Ok(q + 2)),
            }
        }
    } else if op == 0x72 {
        if q + 1 > d.len() {
            (m, Err(eof_error(q)))
        } else if q + 1 + d[q] > d.len() {
            (m, Err(eof_error(q + 1)))
        } else {
            (
                TemplateModel {
                    retained: m.retained.push(d.subrange(q + 1, q + 1 + d[q]) + template_suffix()),
                    ..m
                },
                Ok(q + 1 + d[q]),
            )
        }
    } else if op == 0x73 {
        (render_spec(m), Ok(q))
    } else {
        (m, Ok(skip_unknown(d, p, 8)))
    }
}

/// The template operation step, resolving aliases in `dict`.
pub open spec fn template_step(dict: DictModel) -> OpStep<TemplateModel> {
    |m: TemplateModel, d: Seq<u8>, p: int| template_op(m, dict, d, p)
}

impl TemplateBook {
    pub fn new() -> (t: Self)
        ensures
            t@ == empty_templates(),
    {
        let t = TemplateBook { tokens: Vec::new(), retained: Vec::new(), rendered: Vec::new() };
        assert(t@.tokens == Seq::<Seq<char>>::empty());
        assert(t@.retained == Seq::<Seq<u8>>::empty());
        assert(t@.rendered == Seq::<Seq<char>>::empty());
        t
    }

    fn apply_op(&mut self, c: &mut Cursor, dict: &Dictionary) -> (r: Result<()>)
        requires
            old(c).wf(),
            old(c).pos() < old(c).bytes().len(),
        ensures
            final(c).bytes() == old(c).bytes(),
            final(c).wf(),
            step_result(final(self)@, r, final(c).pos(), template_op(old(self)@, dict@, old(c).bytes(), old(c).pos())),
    {
        let op = c.u8()?;
        if op == 0x70 {
            let text = lossy_text(c.take_len8()?);
            let ghost before = self.tokens@;
            self.tokens.push(text);
            assert(strings_seq(self.tokens@) == strings_seq(before).push(text@));
        } else if op == 0x71 {
            let id = c.u16()?;
            match dict.resolve_alias_text(id) {
                Some(value) => {
                    let span = capture_bytes(value.as_str().as_bytes());
                    let ghost before = self.retained@;
                    self.retained.push(span);
                    assert(spans_seq(self.retained@) == spans_seq(before).push(span@));
                },
                None => {},
            }
        } else if op == 0x72 {
            let bytes = c.take_len8()?;
            let mut local = capture_bytes(bytes).bytes;
            local.push(0x3a);
            local.push(0x74);
            local.push(0x65);
            local.push(0x6d);
            local.push(0x70);
            local.push(0x6c);
            local.push(0x61);
            local.push(0x74);
            local.push(0x65);
            assert(local@ == bytes@ + template_suffix());
            let span = RawSpan { bytes: local };
            let ghost before = self.retained@;
            self.retained.push(span);
            assert(spans_seq(self.retained@) == spans_seq(before).push(span@));
        } else if op == 0x73 {
            self.render();
        } else {
            skip_op(c, op, 8);
        }
        Ok(())
    }

    /// Runs the operations of `payload`, resolving aliases in `dict`.
    pub fn parse_ops(&mut self, payload: &[u8], dict: &Dictionary) -> (r: Result<()>)
        ensures
            (final(self)@, r) == run_ops(template_step(dict@), old(self)@, payload@, 0),
    {
        let mut c = Cursor::new(payload);
        while !c.is_empty()
            invariant
                c.bytes() == payload@,
                c.wf(),
                run_ops(template_step(dict@), self@, payload@, c.pos()) == run_ops(
                    template_step(dict@),
                    old(self)@,
                    payload@,
                    0,
                ),
            decreases payload@.len() - c.pos(),
        {
            let ghost p = c.pos();
            let ghost m = self@;
            let r = self.apply_op(&mut c, dict);
            assert(template_step(dict@)(m, payload@, p) == template_op(m, dict@, payload@, p));
            if r.is_err() {
                return r;
            }
        }
        Ok(())
    }

    /// Renders the pending templates (see `render_spec`).
    pub fn render(&mut self)
        ensures
            final(self)@ == render_spec(old(self)@),
    {
        let mut line = String::new();
        let mut i: usize = 0;
        while i < self.tokens.len()
            invariant
                0 <= i <= self.tokens@.len(),
                line@ == join_tokens(self@.tokens, i as int),
            decreases self.tokens@.len() - i,
        {
            assert(self@.tokens[i as int] == self.tokens@[i as int]@);
            if i > 0 {
                string_push(&mut line, ' ');
            }
            line.append(self.tokens[i].as_str());
            i = i + 1;
        }
        let ghost joined = line@;
        let mut j: usize = 0;
        while j < self.retained.len()
            invariant
                0 <= j <= self.retained@.len(),
                line@ == append_retained(joined, self@.retained, j as int),
            decreases self.retained@.len() - j,
        {
            assert(self@.retained[j as int] == self.retained@[j as int]@);
            let text = span_to_string(&self.retained[j]);
            string_push(&mut line, ' ');
            line.append(text.as_str());
            j = j + 1;
        }
        self.retained = Vec::new();
        if !line.as_str().is_empty() {
            let ghost before = self.rendered@;
            self.rendered.push(line);
            assert(strings_seq(self.rendered@) == strings_seq(before).push(line@));
        }
        assert(self@.retained == Seq::<Seq<u8>>::empty());
    }

    pub fn rendered_count(&self) -> (n: usize)
        ensures
            n == self@.rendered.len(),
    {
        self.rendered.len()
    }
}

impl Default for TemplateBook {
    /// An empty template book, as `new` makes it.
    fn default() -> (d: Self)
        ensures
            d@ == empty_templates(),
    {
        Self::new()
    }
}

} // verus!
