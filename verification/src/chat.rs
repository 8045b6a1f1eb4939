//! The chat-completion wire types of the AI API and the decoding of its
//! streamed answers.
//!
//! JSON itself is read and written by the caller; this module holds what the
//! JSON carries and decides what a stream of server-sent lines means.

use vstd::prelude::*;
use crate::text::concat2;
use crate::text::opt_view;
use crate::error::AISearchError;
use crate::error::protocol_error;
use crate::text::views;
use crate::text::split_spec;
use crate::text::split_char;
use crate::text::starts_with_spec;
use crate::text::strip_prefix;
use crate::text::trim_spec;
use crate::text::trim;
use crate::text::str_eq;
use vstd::utf8::encode_utf8;

verus! {

/// One message of a chat request.
#[derive(Debug, Clone)]
pub struct ChatMessage {
    pub role: String,
    pub content: String,
}

/// A chat-completion request.
#[derive(Debug, Clone)]
pub struct ChatRequest {
    pub model: String,
    pub messages: Vec<ChatMessage>,
    pub stream: bool,
}

/// The complete message of a choice in a non-streamed answer.
#[derive(Debug, Clone)]
pub struct Message {
    pub content: String,
}

/// The increment of a choice in a streamed answer.
#[derive(Debug, Clone)]
pub struct Delta {
    pub content: Option<String>,
}

/// One choice of an answer.
#[derive(Debug, Clone)]
pub struct Choice {
    pub message: Option<Message>,
    pub delta: Option<Delta>,
}

/// A chat-completion answer, whole or one streamed piece of it.
#[derive(Debug, Clone)]
pub struct ChatResponse {
    pub choices: Vec<Choice>,
}

impl ChatResponse {
    /// The content of the first choice's delta, if there is one.
    pub open spec fn first_delta_spec(&self) -> Option<Seq<char>> {
        if self.choices@.len() > 0 && self.choices@[0].delta is Some
            && self.choices@[0].delta->Some_0.content is Some {
            Some(self.choices@[0].delta->Some_0.content->Some_0@)
        } else {
            None
        }
    }

    /// The content of the first choice's message, if there is one.
    pub open spec fn first_message_spec(&self) -> Option<Seq<char>> {
        if self.choices@.len() > 0 && self.choices@[0].message is Some {
            Some(self.choices@[0].message->Some_0.content@)
        } else {
            None
        }
    }

    /// The text that one streamed piece adds: its first choice's delta content.
    pub fn first_delta_content(&self) -> (r: Option<String>)
        ensures
            opt_view(r) == self.first_delta_spec(),
    {
        if self.choices.len() == 0 {
            return None;
        }
        match &self.choices[0].delta {
            Some(d) => match &d.content {
                Some(c) => Some(c.clone()),
                None => None,
            },
            None => None,
        }
    }

    /// The answer of a non-streamed response: its first choice's message
    /// content, or the protocol error `响应格式错误` where there is none.
    pub fn first_message_content(&self) -> (r: Result<String, AISearchError>)
        ensures
            match r {
                Ok(c) => self.first_message_spec() == Some(c@),
                Err(e) => self.first_message_spec() is None && e.is_protocol("响应格式错误"@),
            },
    {
        if self.choices.len() == 0 {
            return Err(protocol_error("响应格式错误"));
        }
        match &self.choices[0].message {
            Some(m) => Ok(m.content.clone()),
            None => Err(protocol_error("响应格式错误")),
        }
    }
}

/// Largest buffered stream text, in bytes: 10 MiB.
pub const MAX_BUFFER_SIZE: usize = 10485760;

/// Largest total of streamed content, in bytes: 10 MiB.
pub const MAX_CHUNKS_SIZE: usize = 10485760;

/// Largest unfinished line kept between pieces, in bytes: 1 MiB.
pub const MAX_LINE_BUFFER_SIZE: usize = 1048576;

/// The payloads of the `data: ` lines among `lines`, without those whose
/// payload is `[DONE]` once trimmed.
pub open spec fn data_payloads(lines: Seq<Seq<char>>) -> Seq<Seq<char>>
    decreases lines.len(),
{
    if lines.len() == 0 {
        Seq::empty()
    } else {
        let prev = data_payloads(lines.drop_last());
        let line = lines.last();
        if starts_with_spec(line, "data: "@) && trim_spec(line.skip("data: "@.len() as int))
            != "[DONE]"@ {
            prev.push(line.skip("data: "@.len() as int))
        } else {
            prev
        }
    }
}

/// The complete lines of `text`: every field that a `'\n'` ends.
pub open spec fn complete_lines(text: Seq<char>) -> Seq<Seq<char>> {
    split_spec(text, '\n').drop_last()
}

/// The unfinished last line of `text`.
pub open spec fn unfinished_line(text: Seq<char>) -> Seq<char> {
    split_spec(text, '\n').last()
}

/// Decoder of a streamed chat answer (server-sent events).
///
/// Text is fed piece by piece; each complete `data: ` line is handed back to
/// be read as a `ChatResponse`, and the content that each piece adds is
/// collected here, within the size limits.
pub struct StreamDecoder {
    buffer: String,
    chunks: Vec<String>,
    chunks_total: usize,
}

impl StreamDecoder {
    /// The unfinished line held between pieces.
    pub closed spec fn buffer_spec(&self) -> Seq<char> {
        self.buffer@
    }

    /// The contents collected so far, in order.
    pub closed spec fn chunks_spec(&self) -> Seq<Seq<char>> {
        views(self.chunks@)
    }

    /// Total bytes of the contents collected so far.
    pub closed spec fn total_spec(&self) -> nat {
        self.chunks_total as nat
    }

    /// The decoder's invariant: the recorded total is the size of what it
    /// collected, and is within the limit; the line kept is within its limit.
    #[verifier::type_invariant]
    spec fn wf(&self) -> bool {
        &&& self.chunks_total as nat == total_bytes(views(self.chunks@))
        &&& self.chunks_total <= MAX_CHUNKS_SIZE
        &&& encode_utf8(self.buffer@).len() <= MAX_LINE_BUFFER_SIZE
    }

    /// A decoder that has seen nothing.
    pub fn new() -> (d: StreamDecoder)
        ensures
            d.buffer_spec() == Seq::<char>::empty(),
            d.chunks_spec() == Seq::<Seq<char>>::empty(),
    {
        let d = StreamDecoder { buffer: String::new(), chunks: Vec::new(), chunks_total: 0 };
        proof {
            assert(views(d.chunks@) =~= Seq::<Seq<char>>::empty());
        }
        d
    }

    /// Feeds one piece of text. Where the unfinished line and the piece
    /// together exceed `MAX_BUFFER_SIZE` bytes this is a protocol error and
    /// nothing changes. Otherwise the payloads of the complete `data: ` lines
    /// (not `[DONE]`) are returned in order, and the unfinished last line is
    /// kept, or dropped where it exceeds `MAX_LINE_BUFFER_SIZE` bytes.
    pub fn feed(&mut self, text: &str) -> (r: Result<Vec<String>, AISearchError>)
        requires
            encode_utf8(text@).len() <= usize::MAX,
        ensures
            final(self).chunks_spec() == old(self).chunks_spec(),
            encode_utf8(old(self).buffer_spec()).len() + encode_utf8(text@).len() > MAX_BUFFER_SIZE
                ==> {
                &&& r matches Err(e) && e.is_protocol("单次响应缓冲区过大，超过 10 MB 限制"@)
                &&& final(self).buffer_spec() == old(self).buffer_spec()
            },
            encode_utf8(old(self).buffer_spec()).len() + encode_utf8(text@).len() <= MAX_BUFFER_SIZE
                ==> {
                let all = old(self).buffer_spec() + text@;
                &&& r matches Ok(p) && views(p@) == data_payloads(complete_lines(all))
                &&& final(self).buffer_spec() == (if encode_utf8(unfinished_line(all)).len()
                    > MAX_LINE_BUFFER_SIZE {
                    Seq::<char>::empty()
                } else {
                    unfinished_line(all)
                })
            },
    {
        proof {
            use_type_invariant(&*self);
        }
        let held = self.buffer.as_str().len();
        let incoming = text.len();
        if incoming > MAX_BUFFER_SIZE || held > MAX_BUFFER_SIZE - incoming {
            return Err(protocol_error("单次响应缓冲区过大，超过 10 MB 限制"));
        }
        let all_text = concat2(self.buffer.as_str(), text);
        proof {
            crate::text::lemma_encode_concat(self.buffer@, text@);
        }
        let parts = split_char(all_text.as_str(), '\n');
        proof {
            crate::text::lemma_split_nonempty(all_text@, '\n');
        }
        let n = parts.len();
        let mut payloads: Vec<String> = Vec::new();
        let mut i: usize = 0;
        while i + 1 < n
            invariant
                n == parts@.len(),
                n >= 1,
                i < n,
                views(parts@) == split_spec(all_text@, '\n'),
                views(payloads@) == data_payloads(split_spec(all_text@, '\n').take(i as int)),
            decreases n - i,
        {
            let ghost lines = split_spec(all_text@, '\n');
            proof {
                assert(lines.take(i + 1).drop_last() =~= lines.take(i as int));
                assert(lines.take(i + 1).last() == lines[i as int]);
                assert(views(parts@)[i as int] == parts@[i as int]@);
            }
            match strip_prefix(parts[i].as_str(), "data: ") {
                Some(data) => {
                    let t = trim(data.as_str());
                    if !str_eq(t.as_str(), "[DONE]") {
                        let ghost before = views(payloads@);
                        payloads.push(data);
                        proof {
                            assert(views(payloads@) =~= before.push(lines[i as int].skip(
                                "data: "@.len() as int,
                            )));
                        }
                    }
                },
                None => {},
            }
            i += 1;
        }
        proof {
            let lines = split_spec(all_text@, '\n');
            assert(lines.take(n - 1) =~= lines.drop_last());
            assert(views(parts@)[n - 1] == parts@[n - 1]@);
        }
        let rest = parts[n - 1].clone();
        proof {
            let all = all_text@;
            crate::text::lemma_split_last_suffix(all, '\n');
            let k = all.len() - rest@.len();
            assert(all =~= all.take(k) + all.skip(k));
            crate::text::lemma_encode_concat(all.take(k), all.skip(k));
            assert(encode_utf8(rest@).len() <= encode_utf8(all).len());
            assert(encode_utf8(Seq::<char>::empty()) =~= Seq::<u8>::empty());
        }
        if rest.as_str().len() > MAX_LINE_BUFFER_SIZE {
            self.buffer = String::new();
        } else {
            self.buffer = rest;
        }
        Ok(payloads)
    }

    /// Adds the content of one streamed piece. Where the total would exceed
    /// `MAX_CHUNKS_SIZE` bytes this is a protocol error and nothing is added.
    pub fn add_content(&mut self, content: String) -> (r: Result<(), AISearchError>)
        requires
            encode_utf8(content@).len() <= usize::MAX,
        ensures
            final(self).buffer_spec() == old(self).buffer_spec(),
            old(self).total_spec() + encode_utf8(content@).len() > MAX_CHUNKS_SIZE ==> {
                &&& r matches Err(e) && e.is_protocol("响应内容过大，超过 10 MB 限制"@)
                &&& final(self).chunks_spec() == old(self).chunks_spec()
            },
            old(self).total_spec() + encode_utf8(content@).len() <= MAX_CHUNKS_SIZE ==> {
                &&& r is Ok
                &&& final(self).chunks_spec() == old(self).chunks_spec().push(content@)
            },
    {
        proof {
            use_type_invariant(&*self);
        }
        let size = content.as_str().len();
        if size > MAX_CHUNKS_SIZE - self.chunks_total {
            return Err(protocol_error("响应内容过大，超过 10 MB 限制"));
        }
        let mut cur = StreamDecoder::new();
        std::mem::swap(self, &mut cur);
        proof {
            use_type_invariant(&cur);
        }
        let StreamDecoder { buffer, mut chunks, chunks_total } = cur;
        let ghost before = views(chunks@);
        chunks.push(content);
        proof {
            assert(views(chunks@) =~= before.push(content@));
            assert(views(chunks@).drop_last() =~= before);
        }
        *self = StreamDecoder { buffer, chunks, chunks_total: chunks_total + size };
        Ok(())
    }

    /// The collected contents joined, in order.
    pub fn finish(&self) -> (r: String)
        ensures
            r@ == concat_all(self.chunks_spec()),
    {
        let mut r = String::new();
        let mut i: usize = 0;
        while i < self.chunks.len()
            invariant
                i <= self.chunks@.len(),
                r@ == concat_all(views(self.chunks@).take(i as int)),
            decreases self.chunks@.len() - i,
        {
            proof {
                let v = views(self.chunks@);
                assert(v.take(i + 1).drop_last() =~= v.take(i as int));
                assert(v[i as int] == self.chunks@[i as int]@);
            }
            r.append(self.chunks[i].as_str());
            i += 1;
        }
        proof {
            assert(views(self.chunks@).take(self.chunks@.len() as int) =~= views(self.chunks@));
        }
        r
    }
}

/// Total UTF-8 size of `parts`.
pub open spec fn total_bytes(parts: Seq<Seq<char>>) -> nat
    decreases parts.len(),
{
    if parts.len() == 0 {
        0
    } else {
        total_bytes(parts.drop_last()) + encode_utf8(parts.last()).len()
    }
}

/// `parts` joined with nothing between them.
pub open spec fn concat_all(parts: Seq<Seq<char>>) -> Seq<char>
    decreases parts.len(),
{
    if parts.len() == 0 {
        Seq::empty()
    } else {
        concat_all(parts.drop_last()) + parts.last()
    }
}

/// The payloads of two runs of lines are those of the first, then those of
/// the second.
pub proof fn lemma_data_payloads_concat(a: Seq<Seq<char>>, b: Seq<Seq<char>>)
    ensures
        data_payloads(a + b) == data_payloads(a) + data_payloads(b),
    decreases b.len(),
{
    if b.len() == 0 {
        assert(a + b =~= a);
        assert(data_payloads(a) + data_payloads(b) =~= data_payloads(a));
    } else {
        lemma_data_payloads_concat(a, b.drop_last());
        assert((a + b).drop_last() =~= a + b.drop_last());
        assert((a + b).last() == b.last());
        let pa = data_payloads(a);
        let pb = data_payloads(b.drop_last());
        let line = b.last();
        let item = line.skip("data: "@.len() as int);
        assert((pa + pb).push(item) =~= pa + pb.push(item));
    }
}

/// Feeding text in two pieces hands back the same payloads, in the same
/// order, as feeding it at once, so long as the unfinished line between the
/// pieces is kept.
pub proof fn lemma_feed_in_pieces(held: Seq<char>, t1: Seq<char>, t2: Seq<char>)
    ensures
        data_payloads(complete_lines(held + t1 + t2)) == data_payloads(complete_lines(held + t1))
            + data_payloads(complete_lines(unfinished_line(held + t1) + t2)),
{
    let x = held + t1;
    crate::text::lemma_split_append(x, t2, '\n');
    crate::text::lemma_split_nonempty(unfinished_line(x) + t2, '\n');
    crate::text::lemma_split_nonempty(x, '\n');
    let d = split_spec(x, '\n').drop_last();
    let s2 = split_spec(unfinished_line(x) + t2, '\n');
    assert((d + s2).drop_last() =~= d + s2.drop_last());
    lemma_data_payloads_concat(d, s2.drop_last());
}

/// The unfinished line held after feeding `pieces`, one after another, to a
/// decoder that holds `held`, where no limit is reached.
pub open spec fn held_after(held: Seq<char>, pieces: Seq<Seq<char>>) -> Seq<char>
    decreases pieces.len(),
{
    if pieces.len() == 0 {
        held
    } else {
        unfinished_line(held_after(held, pieces.drop_last()) + pieces.last())
    }
}

/// The payloads handed back, in order, by feeding `pieces`, one after
/// another, to a decoder that holds `held`, where no limit is reached.
pub open spec fn fed_payloads(held: Seq<char>, pieces: Seq<Seq<char>>) -> Seq<Seq<char>>
    decreases pieces.len(),
{
    if pieces.len() == 0 {
        Seq::empty()
    } else {
        fed_payloads(held, pieces.drop_last()) + data_payloads(
            complete_lines(held_after(held, pieces.drop_last()) + pieces.last()),
        )
    }
}

proof fn lemma_unfinished_after(x: Seq<char>, t: Seq<char>)
    ensures
        unfinished_line(unfinished_line(x) + t) == unfinished_line(x + t),
{
    crate::text::lemma_split_append(x, t, '\n');
    crate::text::lemma_split_nonempty(unfinished_line(x) + t, '\n');
}

/// However a text is cut into pieces, feeding the pieces one after another
/// hands back the payloads of the whole text, in order, and holds its
/// unfinished last line, so long as no limit is reached. The decoder starts
/// from an unfinished line (no line break), as a new one does.
pub proof fn lemma_feed_any_split(held: Seq<char>, pieces: Seq<Seq<char>>)
    requires
        forall|i: int| 0 <= i < held.len() ==> held[i] != '\n',
    ensures
        fed_payloads(held, pieces) == data_payloads(complete_lines(held + concat_all(pieces))),
        held_after(held, pieces) == unfinished_line(held + concat_all(pieces)),
    decreases pieces.len(),
{
    if pieces.len() == 0 {
        assert(held + concat_all(pieces) =~= held);
        crate::text::lemma_split_no_sep(held, '\n');
        assert(complete_lines(held) =~= Seq::<Seq<char>>::empty());
    } else {
        let p = pieces.drop_last();
        let t = pieces.last();
        lemma_feed_any_split(held, p);
        let x = held + concat_all(p);
        assert(held + concat_all(pieces) =~= x + t);
        lemma_feed_in_pieces(held, concat_all(p), t);
        lemma_unfinished_after(x, t);
    }
}

proof fn lemma_first_field_extends(x: Seq<char>, y: Seq<char>, c: char)
    requires
        forall|i: int| 0 <= i < x.len() ==> x[i] != c,
    ensures
        split_spec(x + y, c).len() >= 1,
        split_spec(x + y, c)[0].len() >= x.len(),
        split_spec(x + y, c)[0].take(x.len() as int) == x,
    decreases y.len(),
{
    crate::text::lemma_split_nonempty(x + y, c);
    if y.len() == 0 {
        assert(x + y =~= x);
        crate::text::lemma_split_no_sep(x, c);
        assert(x.take(x.len() as int) =~= x);
    } else {
        lemma_first_field_extends(x, y.drop_last(), c);
        let s = x + y;
        assert(s.drop_last() =~= x + y.drop_last());
        let prev = split_spec(x + y.drop_last(), c);
        crate::text::lemma_split_nonempty(x + y.drop_last(), c);
        if s.last() != c && prev.len() == 1 {
            assert(prev.last().push(s.last()).take(x.len() as int) =~= prev[0].take(x.len() as int));
        }
    }
}

proof fn lemma_unfinished_bounded(p: Seq<char>, r: Seq<char>, limit: nat)
    requires
        forall|j: int|
            0 <= j < split_spec(p + r, '\n').len() ==> encode_utf8(
                #[trigger] split_spec(p + r, '\n')[j],
            ).len() <= limit,
    ensures
        encode_utf8(unfinished_line(p)).len() <= limit,
{
    crate::text::lemma_split_append(p, r, '\n');
    crate::text::lemma_split_nonempty(p, '\n');
    crate::text::lemma_split_fields_no_sep(p, '\n');
    let sp = split_spec(p, '\n');
    let u = unfinished_line(p);
    assert forall|i: int| 0 <= i < u.len() implies u[i] != '\n' by {
        assert(sp[sp.len() - 1][i] != '\n');
    }
    lemma_first_field_extends(u, r, '\n');
    let f = split_spec(u + r, '\n')[0];
    let idx = sp.len() - 1;
    assert(split_spec(p + r, '\n')[idx] == f);
    assert(f =~= u + f.skip(u.len() as int));
    crate::text::lemma_encode_concat(u, f.skip(u.len() as int));
}

proof fn lemma_concat_all_append(a: Seq<Seq<char>>, b: Seq<Seq<char>>)
    ensures
        concat_all(a + b) == concat_all(a) + concat_all(b),
    decreases b.len(),
{
    if b.len() == 0 {
        assert(a + b =~= a);
        assert(concat_all(a) + concat_all(b) =~= concat_all(a));
    } else {
        lemma_concat_all_append(a, b.drop_last());
        assert((a + b).drop_last() =~= a + b.drop_last());
        assert((a + b).last() == b.last());
        assert(concat_all(a) + concat_all(b.drop_last()) + b.last() =~= concat_all(a) + (concat_all(
            b.drop_last(),
        ) + b.last()));
    }
}

/// A stream whose pieces and lines are each at most `MAX_LINE_BUFFER_SIZE`
/// bytes never reaches a limit of the decoder: before each piece, the line
/// held and the piece together fit in `MAX_BUFFER_SIZE`, and the unfinished
/// line kept after it fits in `MAX_LINE_BUFFER_SIZE`, so it is never dropped.
/// With `lemma_feed_any_split`, what such a stream gives depends on its text
/// alone, not on how it was cut.
pub proof fn lemma_feed_within_limits(pieces: Seq<Seq<char>>, k: int)
    requires
        0 <= k < pieces.len(),
        forall|j: int| 0 <= j < pieces.len() ==> encode_utf8(#[trigger] pieces[j]).len()
            <= MAX_LINE_BUFFER_SIZE,
        forall|j: int|
            0 <= j < split_spec(concat_all(pieces), '\n').len() ==> encode_utf8(
                #[trigger] split_spec(concat_all(pieces), '\n')[j],
            ).len() <= MAX_LINE_BUFFER_SIZE,
    ensures
        encode_utf8(held_after(Seq::empty(), pieces.take(k))).len() + encode_utf8(pieces[k]).len()
            <= MAX_BUFFER_SIZE,
        encode_utf8(unfinished_line(held_after(Seq::empty(), pieces.take(k)) + pieces[k])).len()
            <= MAX_LINE_BUFFER_SIZE,
{
    let e = Seq::<char>::empty();
    let t = concat_all(pieces);
    lemma_feed_any_split(e, pieces.take(k));
    lemma_feed_any_split(e, pieces.take(k + 1));
    let pk = concat_all(pieces.take(k));
    let pk1 = concat_all(pieces.take(k + 1));
    assert(e + pk =~= pk);
    assert(e + pk1 =~= pk1);
    assert(pieces =~= pieces.take(k) + pieces.skip(k));
    lemma_concat_all_append(pieces.take(k), pieces.skip(k));
    assert(pieces =~= pieces.take(k + 1) + pieces.skip(k + 1));
    lemma_concat_all_append(pieces.take(k + 1), pieces.skip(k + 1));
    lemma_unfinished_bounded(pk, concat_all(pieces.skip(k)), MAX_LINE_BUFFER_SIZE as nat);
    lemma_unfinished_bounded(pk1, concat_all(pieces.skip(k + 1)), MAX_LINE_BUFFER_SIZE as nat);
    assert(pieces.take(k + 1).drop_last() =~= pieces.take(k));
    assert(pieces.take(k + 1).last() == pieces[k]);
}

} // verus!
