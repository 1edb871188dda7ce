//! The streamed-response decoder.
//!
//! A streamed body arrives as raw byte chunks.  Each chunk is decoded
//! as UTF-8 text (lossily, never fatally), split into lines, and each
//! line that begins with the `data: ` marker carries one JSON document:
//! the end-of-stream sentinel `[DONE]` is discarded, and every other
//! payload is parsed and decoded into one response, a failure standing
//! as one error element in encounter order without ending the stream.
//! The pull loop around the transport lives outside the library and
//! hands each chunk here.
//!
//! Two decoders are offered.  [`decode_chunk`] processes each chunk on
//! its own, so a document split across two chunks does not survive; that
//! is how the protocol behaves when every message arrives whole in one
//! chunk, and it assumes exactly that.  [`StreamDecoder`] carries
//! unfinished lines across chunk boundaries instead, so the results do
//! not depend on where the transport cuts the stream; the law
//! [`lemma_stream_split`] states that independence.

use vstd::prelude::*;

use crate::codec::dec_response;
use crate::error::{Error, ErrorV};
use crate::json_text::json_doc;
use crate::models::{GenerationResponse, GenerationResponseView};
use crate::text::{str_to_chars, string_from_chars, views_of};

verus! {

/// The first position at or after `i` that holds a line break.
pub open spec fn next_nl(t: Seq<char>, i: int) -> int
    decreases t.len() - i,
{
    if 0 <= i < t.len() && t[i] != '\n' {
        next_nl(t, i + 1)
    } else {
        i
    }
}

/// A line with one trailing carriage return dropped.
pub open spec fn strip_cr(s: Seq<char>) -> Seq<char> {
    if s.len() > 0 && s.last() == '\r' {
        s.drop_last()
    } else {
        s
    }
}

/// The lines of a text from position `s` on: segments split at line
/// breaks, each with a trailing carriage return dropped, and no empty
/// final segment after a trailing break.
pub open spec fn lines_from(t: Seq<char>, s: int) -> Seq<Seq<char>>
    decreases t.len() - s,
{
    if !(0 <= s < t.len()) {
        Seq::empty()
    } else {
        let n = next_nl(t, s);
        if s <= n < t.len() {
            seq![strip_cr(t.subrange(s, n))] + lines_from(t, n + 1)
        } else {
            seq![strip_cr(t.subrange(s, t.len() as int))]
        }
    }
}

/// The payload of a line that begins with the `data: ` marker, with the
/// marker stripped; a line without the marker carries nothing.
pub open spec fn data_payload(line: Seq<char>) -> Option<Seq<char>> {
    if line.len() >= 6 && line.subrange(0, 6) == "data: "@ {
        Some(line.subrange(6, line.len() as int))
    } else {
        None
    }
}

/// What one payload yields: nothing for the end-of-stream sentinel, the
/// decoded response for a well-formed document, and one error for
/// anything else.
pub open spec fn payload_result(p: Seq<char>) -> Option<
    Result<GenerationResponseView, ErrorV>,
> {
    if p == "[DONE]"@ {
        None
    } else {
        match json_doc(p) {
            Some(j) => match dec_response(j) {
                Some(g) => Some(Ok(g)),
                None => Some(Err(ErrorV::Json("response does not fit the expected shape"@))),
            },
            None => Some(Err(ErrorV::Json("invalid JSON in response"@))),
        }
    }
}

/// What a list of lines yields, in encounter order: the results of the
/// payload lines; every other line is passed over.
pub open spec fn lines_results(lines: Seq<Seq<char>>) -> Seq<
    Result<GenerationResponseView, ErrorV>,
>
    decreases lines.len(),
{
    if lines.len() == 0 {
        Seq::empty()
    } else {
        let pre = lines_results(lines.drop_last());
        match data_payload(lines.last()) {
            Some(p) => match payload_result(p) {
                Some(r) => pre.push(r),
                None => pre,
            },
            None => pre,
        }
    }
}

/// What one chunk of text yields: the results of its payload lines, in
/// encounter order.
pub open spec fn chunk_results(t: Seq<char>) -> Seq<Result<GenerationResponseView, ErrorV>> {
    lines_results(lines_from(t, 0))
}

/// The models of a result list.
pub open spec fn results_model(v: Seq<Result<GenerationResponse, Error>>) -> Seq<
    Result<GenerationResponseView, ErrorV>,
> {
    Seq::new(
        v.len(),
        |i: int|
            match v[i] {
                Ok(g) => Ok(g@),
                Err(e) => Err(e@),
            },
    )
}

/// Finds the next line break.
fn x_next_nl(t: &Vec<char>, i: usize) -> (j: usize)
    requires
        i <= t@.len(),
    ensures
        j as int == next_nl(t@, i as int),
        i <= j <= t@.len(),
{
    let mut j = i;
    while j < t.len() && t[j] != '\n'
        invariant
            i <= j <= t@.len(),
            next_nl(t@, i as int) == next_nl(t@, j as int),
        decreases t@.len() - j,
    {
        j += 1;
    }
    j
}

/// Splits a text into lines, from position `s` on, appending them.
#[verifier::loop_isolation(false)]
fn x_lines_into(t: &Vec<char>, s: usize, out: &mut Vec<String>)
    requires
        s <= t@.len(),
    ensures
        views_of(final(out)@) == views_of(old(out)@) + lines_from(t@, s as int),
    decreases t@.len() - s,
{
    if s >= t.len() {
        proof {
            assert(views_of(out@) =~= views_of(out@) + lines_from(t@, s as int));
        }
        return ;
    }
    let n = x_next_nl(t, s);
    let e = if n > s && t[n - 1] == '\r' {
        n - 1
    } else {
        n
    };
    let line = crate::json_text::x_copy_range(t, s, e);
    let ghost om = views_of(out@);
    let ghost lv = line@;
    out.push(string_from_chars(&line));
    proof {
        if n < t@.len() {
            assert(strip_cr(t@.subrange(s as int, n as int)) =~= lv);
        } else {
            assert(strip_cr(t@.subrange(s as int, t@.len() as int)) =~= lv);
        }
        assert(views_of(out@) =~= om.push(lv));
    }
    if n < t.len() {
        x_lines_into(t, n + 1, out);
        proof {
            assert(views_of(out@) =~= om + (seq![lv] + lines_from(t@, n as int + 1)));
        }
    } else {
        proof {
            assert(views_of(out@) =~= om + seq![lv]);
            assert(lines_from(t@, s as int) =~= seq![lv]);
        }
    }
}

/// The payload of a line that begins with the `data: ` marker.
fn x_data_payload(line: &str) -> (r: Option<String>)
    ensures
        match r {
            Some(p) => data_payload(line@) == Some(p@),
            None => data_payload(line@) is None,
        },
{
    let t = str_to_chars(line);
    proof {
        reveal_strlit("data: ");
        assert("data: "@.len() == 6);
    }
    if t.len() >= 6 && t[0] == 'd' && t[1] == 'a' && t[2] == 't' && t[3] == 'a' && t[4] == ':'
        && t[5] == ' ' {
        let p = crate::json_text::x_copy_range(&t, 6, t.len());
        proof {
            assert(line@.subrange(0, 6) =~= "data: "@);
        }
        Some(string_from_chars(&p))
    } else {
        proof {
            if line@.len() >= 6 && line@.subrange(0, 6) == "data: "@ {
                assert(line@.subrange(0, 6)[0] == line@[0]);
                assert(line@.subrange(0, 6)[1] == line@[1]);
                assert(line@.subrange(0, 6)[2] == line@[2]);
                assert(line@.subrange(0, 6)[3] == line@[3]);
                assert(line@.subrange(0, 6)[4] == line@[4]);
                assert(line@.subrange(0, 6)[5] == line@[5]);
                assert(false);
            }
        }
        None
    }
}

/// Decodes one payload: the sentinel yields nothing, anything else
/// yields one result.
fn x_payload_result(p: &str) -> (r: Option<Result<GenerationResponse, Error>>)
    ensures
        match r {
            Some(Ok(g)) => payload_result(p@) == Some(
                Ok::<GenerationResponseView, ErrorV>(g@),
            ),
            Some(Err(e)) => payload_result(p@) == Some(
                Err::<GenerationResponseView, ErrorV>(e@),
            ),
            None => payload_result(p@) is None,
        },
{
    proof {
        reveal_strlit("[DONE]");
    }
    if crate::text::str_eq(p, "[DONE]") {
        return None;
    }
    match crate::json_text::parse_json_text(p) {
        Some(j) => match crate::codec::decode_response(&j) {
            Some(g) => Some(Ok(g)),
            None => Some(
                Err(Error::JsonError("response does not fit the expected shape".to_owned())),
            ),
        },
        None => Some(Err(Error::JsonError("invalid JSON in response".to_owned()))),
    }
}

/// Decodes one chunk of streamed text: each `data: ` line carries one
/// document; the `[DONE]` sentinel is discarded; a line that fails to
/// parse or decode yields one error element and the rest of the chunk
/// goes on.  The results come in encounter order, exactly as
/// [`chunk_results`] says.
#[verifier::loop_isolation(false)]
pub fn decode_chunk_text(text: &str) -> (r: Vec<Result<GenerationResponse, Error>>)
    ensures
        results_model(r@) == chunk_results(text@),
{
    let t = str_to_chars(text);
    let mut lines: Vec<String> = Vec::new();
    x_lines_into(&t, 0, &mut lines);
    proof {
        assert(views_of(lines@) =~= lines_from(text@, 0));
    }
    let ghost lm = views_of(lines@);
    let mut out: Vec<Result<GenerationResponse, Error>> = Vec::new();
    let mut i: usize = 0;
    proof {
        assert(lm.take(0) =~= Seq::<Seq<char>>::empty());
        assert(results_model(out@) =~= lines_results(lm.take(0)));
    }
    while i < lines.len()
        invariant
            i <= lines@.len(),
            lm == views_of(lines@),
            results_model(out@) == lines_results(lm.take(i as int)),
        decreases lines@.len() - i,
    {
        proof {
            assert(lm.take(i as int + 1).drop_last() =~= lm.take(i as int));
            assert(lm.take(i as int + 1).last() == lm[i as int]);
            assert(lm[i as int] == lines@[i as int]@);
        }
        match x_data_payload(lines[i].as_str()) {
            Some(p) => {
                match x_payload_result(p.as_str()) {
                    Some(res) => {
                        let ghost om = results_model(out@);
                        let ghost resv = match &res {
                            Ok(g) => Ok::<GenerationResponseView, ErrorV>(g@),
                            Err(e) => Err::<GenerationResponseView, ErrorV>(e@),
                        };
                        out.push(res);
                        proof {
                            assert(results_model(out@) =~= om.push(resv));
                        }
                    }
                    None => {}
                }
            }
            None => {}
        }
        i += 1;
    }
    proof {
        assert(lm.take(lines@.len() as int) =~= lm);
    }
    out
}

/// The text a byte sequence decodes to under lossy UTF-8 decoding: a
/// pure function of the bytes, with ill-formed sequences replaced and
/// never a failure.
pub uninterp spec fn lossy_of(bytes: Seq<u8>) -> Seq<char>;

/// Relies on `String::from_utf8_lossy`: the decoding is a pure function
/// of the bytes alone, replacing ill-formed sequences with the
/// replacement character and never failing.
#[verifier::external_body]
fn utf8_lossy(bytes: &Vec<u8>) -> (r: String)
    ensures
        r@ == lossy_of(bytes@),
{
    String::from_utf8_lossy(bytes).into_owned()
}

/// Decodes one chunk of raw bytes as [`decode_chunk_text`] does, after
/// decoding the bytes as UTF-8 text, lossily and never fatally.
pub fn decode_chunk(bytes: &Vec<u8>) -> (r: Vec<Result<GenerationResponse, Error>>)
    ensures
        results_model(r@) == chunk_results(lossy_of(bytes@)),
{
    let text = utf8_lossy(bytes);
    decode_chunk_text(text.as_str())
}

/// The position after the last line break of a text: the whole text up
/// to here is made of finished lines, and everything after it is an
/// unfinished tail.
pub open spec fn after_last_nl(t: Seq<char>) -> int
    decreases t.len(),
{
    if t.len() == 0 {
        0
    } else if t.last() == '\n' {
        t.len() as int
    } else {
        after_last_nl(t.drop_last())
    }
}

/// The finished part of a text: everything up to and including its last
/// line break.
pub open spec fn finished_part(t: Seq<char>) -> Seq<char> {
    t.subrange(0, after_last_nl(t))
}

/// The unfinished tail of a text: everything after its last line break.
pub open spec fn unfinished_tail(t: Seq<char>) -> Seq<char> {
    t.subrange(after_last_nl(t), t.len() as int)
}

/// The position after the last break never lies outside the text.
pub proof fn lemma_after_last_nl_bounds(t: Seq<char>)
    ensures
        0 <= after_last_nl(t) <= t.len(),
    decreases t.len(),
{
    if t.len() > 0 && t.last() != '\n' {
        lemma_after_last_nl_bounds(t.drop_last());
    }
}

/// The break position never lies before where the scan began, nor past
/// the end.
proof fn lemma_next_nl_bounds(t: Seq<char>, i: int)
    requires
        0 <= i <= t.len(),
    ensures
        i <= next_nl(t, i) <= t.len(),
    decreases t.len() - i,
{
    if i < t.len() && t[i] != '\n' {
        lemma_next_nl_bounds(t, i + 1);
    }
}

/// A scan that starts at or before a line break stops at or before it.
proof fn lemma_next_nl_le(t: Seq<char>, s: int, p: int)
    requires
        0 <= s <= p < t.len(),
        t[p] == '\n',
    ensures
        next_nl(t, s) <= p,
    decreases p - s,
{
    if t[s] != '\n' {
        lemma_next_nl_le(t, s + 1, p);
    }
}

/// Scanning an appended text from inside the left part finds the same
/// break, where the left part holds one.
proof fn lemma_next_nl_prefix(u: Seq<char>, v: Seq<char>, s: int)
    requires
        0 <= s <= u.len(),
        next_nl(u, s) < u.len(),
    ensures
        next_nl(u + v, s) == next_nl(u, s),
    decreases u.len() - s,
{
    lemma_next_nl_bounds(u, s);
    if s < u.len() {
        assert((u + v)[s] == u[s]);
        if u[s] != '\n' {
            lemma_next_nl_prefix(u, v, s + 1);
        }
    }
}

/// Scanning an appended text from inside the right part is scanning the
/// right part, shifted.
proof fn lemma_next_nl_shift(u: Seq<char>, v: Seq<char>, k: int)
    requires
        0 <= k <= v.len(),
    ensures
        next_nl(u + v, u.len() as int + k) == u.len() + next_nl(v, k),
    decreases v.len() - k,
{
    if k < v.len() {
        assert((u + v)[u.len() + k] == v[k]);
        if v[k] != '\n' {
            lemma_next_nl_shift(u, v, k + 1);
        }
    }
}

/// The lines of an appended text, read from inside the right part, are
/// the right part's lines, shifted.
proof fn lemma_lines_shift(u: Seq<char>, v: Seq<char>, k: int)
    requires
        0 <= k <= v.len(),
    ensures
        lines_from(u + v, u.len() as int + k) == lines_from(v, k),
    decreases v.len() - k,
{
    if k < v.len() {
        lemma_next_nl_shift(u, v, k);
        lemma_next_nl_bounds(v, k);
        let n = next_nl(v, k);
        assert((u + v).subrange(u.len() as int + k, u.len() + n) =~= v.subrange(k, n));
        assert((u + v).subrange(u.len() as int + k, (u + v).len() as int)
            =~= v.subrange(k, v.len() as int));
        if n < v.len() {
            lemma_lines_shift(u, v, n + 1);
            assert(lines_from(u + v, u.len() as int + k) =~= lines_from(v, k));
        } else {
            assert(lines_from(u + v, u.len() as int + k) =~= lines_from(v, k));
        }
    } else {
        assert(lines_from(u + v, u.len() as int + k) =~= lines_from(v, k));
    }
}

/// The lines of an appended text are the lines of its parts, where the
/// left part is empty or ends with a line break.
proof fn lemma_lines_concat(u: Seq<char>, v: Seq<char>, s: int)
    requires
        0 <= s <= u.len(),
        u.len() == 0 || u.last() == '\n',
    ensures
        lines_from(u + v, s) == lines_from(u, s) + lines_from(v, 0),
    decreases u.len() - s,
{
    if s == u.len() {
        lemma_lines_shift(u, v, 0);
        assert(lines_from(u, s) =~= Seq::<Seq<char>>::empty());
        assert(lines_from(u + v, s) =~= lines_from(u, s) + lines_from(v, 0));
    } else {
        lemma_next_nl_le(u, s, u.len() - 1);
        lemma_next_nl_bounds(u, s);
        let n = next_nl(u, s);
        lemma_next_nl_prefix(u, v, s);
        assert((u + v).subrange(s, n) =~= u.subrange(s, n));
        if n < u.len() - 1 {
            lemma_lines_concat(u, v, n + 1);
            assert(lines_from(u + v, s) =~= lines_from(u, s) + lines_from(v, 0));
        } else {
            assert(n == u.len() - 1);
            assert(lines_from(u, n + 1) =~= Seq::<Seq<char>>::empty());
            lemma_lines_shift(u, v, 0);
            assert(lines_from(u + v, s) =~= lines_from(u, s) + lines_from(v, 0));
        }
    }
}

/// The results of appended line lists are the appended results.
proof fn lemma_lines_results_concat(l1: Seq<Seq<char>>, l2: Seq<Seq<char>>)
    ensures
        lines_results(l1 + l2) == lines_results(l1) + lines_results(l2),
    decreases l2.len(),
{
    if l2.len() == 0 {
        assert(l1 + l2 =~= l1);
        assert(lines_results(l2) =~= Seq::<Result<GenerationResponseView, ErrorV>>::empty());
        assert(lines_results(l1) + lines_results(l2) =~= lines_results(l1));
    } else {
        lemma_lines_results_concat(l1, l2.drop_last());
        assert((l1 + l2).drop_last() =~= l1 + l2.drop_last());
        assert((l1 + l2).last() == l2.last());
        match data_payload(l2.last()) {
            Some(p) => match payload_result(p) {
                Some(r) => {
                    assert((lines_results(l1) + lines_results(l2.drop_last())).push(r)
                        =~= lines_results(l1) + lines_results(l2.drop_last()).push(r));
                }
                None => {}
            },
            None => {}
        }
    }
}

/// A finished part is empty or ends with a line break.
proof fn lemma_finished_part_shape(t: Seq<char>)
    ensures
        finished_part(t).len() == 0 || finished_part(t).last() == '\n',
        0 <= after_last_nl(t) <= t.len(),
    decreases t.len(),
{
    lemma_after_last_nl_bounds(t);
    if t.len() > 0 && t.last() != '\n' {
        lemma_finished_part_shape(t.drop_last());
        assert(finished_part(t) =~= finished_part(t.drop_last()));
    }
}

/// Splitting a stream anywhere changes nothing: what the finished part
/// of the text seen so far yields now, followed by what its unfinished
/// tail yields once the rest has arrived, is exactly what the whole
/// text yields.  This is the law the carrying decoder rests on: a
/// document split across two chunks is decoded as if it had arrived in
/// one.
pub proof fn lemma_stream_split(w: Seq<char>, z: Seq<char>)
    ensures
        chunk_results(w + z) == chunk_results(finished_part(w)) + chunk_results(
            unfinished_tail(w) + z,
        ),
{
    lemma_finished_part_shape(w);
    assert(w + z =~= finished_part(w) + (unfinished_tail(w) + z));
    lemma_lines_concat(finished_part(w), unfinished_tail(w) + z, 0);
    lemma_lines_results_concat(
        lines_from(finished_part(w), 0),
        lines_from(unfinished_tail(w) + z, 0),
    );
}

/// A streamed-response decoder that carries unfinished lines across
/// chunk boundaries: a document split across two chunks survives, where
/// the chunk-at-a-time decoder would drop it.  Text goes in chunk by
/// chunk; each push yields the results of the lines the push finished,
/// and whatever line is still unfinished waits for the next chunk or
/// for the end of the stream.
#[derive(Debug)]
pub struct StreamDecoder {
    buf: Vec<char>,
}

impl View for StreamDecoder {
    type V = Seq<char>;

    closed spec fn view(&self) -> Seq<char> {
        self.buf@
    }
}

impl StreamDecoder {
    /// A decoder with nothing carried over.
    pub fn new() -> (r: StreamDecoder)
        ensures
            r@ == Seq::<char>::empty(),
    {
        let r = StreamDecoder { buf: Vec::new() };
        proof {
            assert(r@ =~= Seq::<char>::empty());
        }
        r
    }

    /// Takes one chunk of text: what is carried over and the chunk stand
    /// as one text, the finished lines of that text yield their results,
    /// and its unfinished tail is carried over.
    #[verifier::loop_isolation(false)]
    pub fn push_text(&mut self, text: &str) -> (r: Vec<Result<GenerationResponse, Error>>)
        ensures
            results_model(r@) == chunk_results(finished_part(old(self)@ + text@)),
            final(self)@ == unfinished_tail(old(self)@ + text@),
    {
        let ghost whole = self@ + text@;
        crate::text::push_str_chars(&mut self.buf, text);
        proof {
            lemma_after_last_nl_bounds(whole);
        }
        let cut = Self::find_cut(&self.buf);
        let rest = self.buf.split_off(cut);
        let ghost fin = finished_part(whole);
        proof {
            assert(self.buf@ =~= fin);
            assert(rest@ =~= unfinished_tail(whole));
        }
        let done = crate::text::string_from_chars(&self.buf);
        let r = decode_chunk_text(done.as_str());
        self.buf = rest;
        r
    }

    /// The position after the last line break of a buffer.
    fn find_cut(t: &Vec<char>) -> (j: usize)
        ensures
            j as int == after_last_nl(t@),
    {
        let mut j = t.len();
        proof {
            assert(t@.take(t@.len() as int) =~= t@);
        }
        while j > 0 && t[j - 1] != '\n'
            invariant
                j <= t@.len(),
                after_last_nl(t@) == after_last_nl(t@.take(j as int)),
            decreases j,
        {
            proof {
                assert(t@.take(j as int).last() == t@[j as int - 1]);
                assert(t@.take(j as int).drop_last() =~= t@.take(j as int - 1));
            }
            j -= 1;
        }
        proof {
            if j > 0 {
                assert(t@.take(j as int).last() == t@[j as int - 1]);
                assert(after_last_nl(t@.take(j as int)) == j as int);
            } else {
                assert(t@.take(0) =~= Seq::<char>::empty());
            }
        }
        j
    }

    /// Ends the stream: whatever line is still unfinished stands as one
    /// last line and yields its results, and nothing is carried over.
    pub fn finish(self) -> (r: Vec<Result<GenerationResponse, Error>>)
        ensures
            results_model(r@) == chunk_results(self@),
    {
        let done = crate::text::string_from_chars(&self.buf);
        decode_chunk_text(done.as_str())
    }
}

} // verus!
