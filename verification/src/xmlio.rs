use vstd::prelude::*;

verus! {

use crate::elem::{Element, ElemV, elem_view, elems_view, lemma_elems_view, lemma_elems_view_push, str_eq};
use crate::model::{Sdf, SdfV};
use crate::decode::{DecodeError, spec_decode_sdf, decode_element};

/// One event of the pull parser, as plain values.
#[derive(Debug, PartialEq, Eq)]
pub enum Token {
    /// An opening tag with its attributes, in document order.
    Open(String, Vec<(String, String)>),
    /// A closing tag.
    Close(String),
    /// Character data, already unescaped.
    Text(String),
    /// An event that carries no content: declaration, comment, whitespace,
    /// processing instruction.
    Skip,
    /// The end of the document.
    Eof,
    /// The input is not well-formed markup.
    Fail,
}

/// Mathematical image of a [`Token`].
pub enum TokenV {
    Open(Seq<char>, Seq<(Seq<char>, Seq<char>)>),
    Close(Seq<char>),
    Text(Seq<char>),
    Skip,
    Eof,
    Fail,
}

impl View for Token {
    type V = TokenV;

    open spec fn view(&self) -> TokenV {
        match self {
            Token::Open(n, attrs) => TokenV::Open(
                n@,
                attrs@.map_values(|p: (String, String)| (p.0@, p.1@)),
            ),
            Token::Close(n) => TokenV::Close(n@),
            Token::Text(t) => TokenV::Text(t@),
            Token::Skip => TokenV::Skip,
            Token::Eof => TokenV::Eof,
            Token::Fail => TokenV::Fail,
        }
    }
}

/// Image of a vector of tokens.
pub open spec fn toks_view(ts: Seq<Token>) -> Seq<TokenV> {
    ts.map_values(|t: Token| t@)
}

/// A token that ends the stream.
pub open spec fn is_stop(t: TokenV) -> bool {
    t is Eof || t is Fail
}

/// Whether some token of `ts` ends the stream.
pub open spec fn has_stop(ts: Seq<TokenV>) -> bool {
    exists|i: int| 0 <= i < ts.len() && is_stop(#[trigger] ts[i])
}

/// A pull parser over one borrowed text, opaque to verification; its state is
/// modelled by `reader_tokens` alone.
#[verifier::external_body]
pub struct XmlReader<'a> {
    inner: xml::reader::EventReader<&'a [u8]>,
}

/// The tokens that successive pulls from this reader will yield.
pub uninterp spec fn reader_tokens(r: XmlReader<'_>) -> Seq<TokenV>;

/// The tokens that pull-parsing this text yields; parsing a fixed text is a
/// function of its characters alone.
pub uninterp spec fn tokens_of(text: Seq<char>) -> Seq<TokenV>;

/// Relies on `xml::reader::EventReader::new`: pull-parsing an in-memory byte
/// slice is deterministic, and every event stream reaches `EndDocument` or an
/// error, so the token stream holds a stop token.
#[verifier::external_body]
fn reader_new<'a>(text: &'a str) -> (r: XmlReader<'a>)
    ensures
        reader_tokens(r) == tokens_of(text@),
        has_stop(reader_tokens(r)),
{
    XmlReader { inner: xml::reader::EventReader::new(text.as_bytes()) }
}

/// Relies on `xml::reader::EventReader::next`: it yields the stream's next
/// event, and after `EndDocument` or an error it returns that final event
/// again on every call.
#[verifier::external_body]
fn next_token(r: &mut XmlReader<'_>) -> (t: Token)
    ensures
        reader_tokens(*old(r)).len() > 0 ==> t@ == reader_tokens(*old(r)).first()
            && reader_tokens(*final(r)) == reader_tokens(*old(r)).drop_first(),
        reader_tokens(*old(r)).len() == 0 ==> is_stop(t@) && reader_tokens(*final(r))
            == reader_tokens(*old(r)),
{
    match r.inner.next() {
        Ok(xml::reader::XmlEvent::StartElement { name, attributes, .. }) => Token::Open(
            name.local_name,
            attributes.into_iter().map(|a| (a.name.local_name, a.value)).collect(),
        ),
        Ok(xml::reader::XmlEvent::EndElement { name }) => Token::Close(name.local_name),
        Ok(xml::reader::XmlEvent::Characters(s)) => Token::Text(s),
        Ok(xml::reader::XmlEvent::CData(s)) => Token::Text(s),
        Ok(xml::reader::XmlEvent::EndDocument) => Token::Eof,
        Ok(_) => Token::Skip,
        Err(_) => Token::Fail,
    }
}

/// The element tokens of a stream, up to its first stop token.
pub open spec fn body_tokens(ts: Seq<TokenV>) -> Seq<TokenV>
    decreases ts.len(),
{
    if ts.len() == 0 {
        Seq::empty()
    } else if is_stop(ts.first()) {
        Seq::empty()
    } else if ts.first() is Skip {
        body_tokens(ts.drop_first())
    } else {
        seq![ts.first()] + body_tokens(ts.drop_first())
    }
}

/// Whether the stream's first stop token reports malformed input.
pub open spec fn stops_with_fail(ts: Seq<TokenV>) -> bool
    decreases ts.len(),
{
    if ts.len() == 0 {
        false
    } else if is_stop(ts.first()) {
        ts.first() is Fail
    } else {
        stops_with_fail(ts.drop_first())
    }
}

/// Pulls the whole token stream of `text`: its element tokens in order, or
/// the malformed-input error when the stream ends in one.
fn tokenize(text: &str) -> (r: Result<Vec<Token>, DecodeError>)
    ensures
        match r {
            Ok(v) => !stops_with_fail(tokens_of(text@)) && toks_view(v@) == body_tokens(
                tokens_of(text@),
            ),
            Err(er) => er == DecodeError::Malformed && stops_with_fail(tokens_of(text@)),
        },
{
    let ghost ts = tokens_of(text@);
    let mut r = reader_new(text);
    let mut out: Vec<Token> = Vec::new();
    proof {
        assert(toks_view(out@) =~= Seq::<TokenV>::empty());
        assert(ts.skip(0) =~= ts);
    }
    let ghost mut k: int = 0;
    loop
        invariant
            0 <= k <= ts.len(),
            reader_tokens(r) == ts.skip(k),
            has_stop(ts.skip(k)),
            body_tokens(ts) == toks_view(out@) + body_tokens(ts.skip(k)),
            stops_with_fail(ts) == stops_with_fail(ts.skip(k)),
            ts == tokens_of(text@),
        decreases ts.len() - k,
    {
        proof {
            if ts.skip(k).len() == 0 {
                assert(forall|i: int|
                    0 <= i < ts.skip(k).len() ==> !is_stop(#[trigger] ts.skip(k)[i]));
                assert(!has_stop(ts.skip(k)));
            }
            assert(ts.skip(k).len() > 0);
            assert(ts.skip(k).drop_first() =~= ts.skip(k + 1));
        }
        let t = next_token(&mut r);
        let ghost head = ts.skip(k).first();
        match t {
            Token::Eof => {
                proof {
                    assert(body_tokens(ts.skip(k)) =~= Seq::<TokenV>::empty());
                    assert(toks_view(out@) + Seq::<TokenV>::empty() =~= toks_view(out@));
                }
                return Ok(out);
            },
            Token::Fail => {
                return Err(DecodeError::Malformed);
            },
            Token::Skip => {
                proof {
                    assert(body_tokens(ts.skip(k)) == body_tokens(ts.skip(k + 1)));
                    if !has_stop(ts.skip(k + 1)) {
                        assert(forall|i: int|
                            0 <= i < ts.skip(k).len() ==> !is_stop(#[trigger] ts.skip(k)[i]))
                        by {
                            assert forall|i: int|
                                0 <= i < ts.skip(k).len() implies !is_stop(
                                #[trigger] ts.skip(k)[i],
                            ) by {
                                if i > 0 {
                                    assert(ts.skip(k)[i] == ts.skip(k + 1)[i - 1]);
                                }
                            }
                        }
                        assert(false);
                    }
                    k = k + 1;
                }
            },
            tok => {
                let ghost prev = toks_view(out@);
                out.push(tok);
                proof {
                    assert(toks_view(out@) =~= prev.push(head));
                    assert(body_tokens(ts.skip(k)) == seq![head] + body_tokens(ts.skip(k + 1)));
                    assert(prev.push(head) + body_tokens(ts.skip(k + 1)) =~= prev + (seq![head]
                        + body_tokens(ts.skip(k + 1))));
                    if !has_stop(ts.skip(k + 1)) {
                        assert forall|i: int|
                            0 <= i < ts.skip(k).len() implies !is_stop(
                            #[trigger] ts.skip(k)[i],
                        ) by {
                            if i > 0 {
                                assert(ts.skip(k)[i] == ts.skip(k + 1)[i - 1]);
                            }
                        }
                        assert(false);
                    }
                    k = k + 1;
                }
            },
        }
    }
}

/// One step of building the element tree from the token stream, with the
/// stack of elements opened and not yet closed; the root element is done when
/// its closing tag is the last token.
pub open spec fn parse_run(rest: Seq<TokenV>, stack: Seq<ElemV>) -> Option<ElemV>
    decreases rest.len(),
{
    if rest.len() == 0 {
        None
    } else {
        match rest.first() {
            TokenV::Open(n, attrs) => parse_run(
                rest.drop_first(),
                stack.push(ElemV { name: n, attrs, text: Seq::empty(), children: Seq::empty() }),
            ),
            TokenV::Text(t) => if stack.len() == 0 {
                None
            } else {
                let top = stack.last();
                parse_run(
                    rest.drop_first(),
                    stack.drop_last().push(
                        ElemV {
                            name: top.name,
                            attrs: top.attrs,
                            text: top.text + t,
                            children: top.children,
                        },
                    ),
                )
            },
            TokenV::Close(n) => if stack.len() == 0 {
                None
            } else if stack.last().name != n {
                None
            } else if stack.len() == 1 {
                if rest.len() == 1 {
                    Some(stack.last())
                } else {
                    None
                }
            } else {
                let top = stack.last();
                let parent = stack[stack.len() - 2];
                parse_run(
                    rest.drop_first(),
                    stack.drop_last().drop_last().push(
                        ElemV {
                            name: parent.name,
                            attrs: parent.attrs,
                            text: parent.text,
                            children: parent.children.push(top),
                        },
                    ),
                )
            },
            _ => None,
        }
    }
}

/// The element tree of a token stream: exactly one root element, well nested.
pub open spec fn spec_parse_tokens(ts: Seq<TokenV>) -> Option<ElemV> {
    parse_run(ts, Seq::empty())
}

/// Builds the element tree of the token stream, or reports malformed input.
fn parse_tokens(tokens: Vec<Token>) -> (r: Result<Element, DecodeError>)
    ensures
        match r {
            Ok(el) => spec_parse_tokens(toks_view(tokens@)) == Some(el@),
            Err(er) => er == DecodeError::Malformed && spec_parse_tokens(
                toks_view(tokens@),
            ) is None,
        },
{
    let ghost ts0 = toks_view(tokens@);
    let mut rest = tokens;
    let mut stack: Vec<Element> = Vec::new();
    proof {
        assert(elems_view(stack@) =~= Seq::<ElemV>::empty());
    }
    loop
        invariant
            ts0 == toks_view(tokens@),
            spec_parse_tokens(ts0) == parse_run(toks_view(rest@), elems_view(stack@)),
        decreases rest.len(),
    {
        proof {
            lemma_elems_view(stack@);
        }
        if rest.len() == 0 {
            proof {
                assert(toks_view(rest@).len() == 0);
                assert(parse_run(toks_view(rest@), elems_view(stack@)) is None);
            }
            return Err(DecodeError::Malformed);
        }
        let ghost old_rest = toks_view(rest@);
        let ghost old_stack = elems_view(stack@);
        let tok = rest.remove(0);
        proof {
            assert(toks_view(rest@) =~= old_rest.drop_first());
            assert(tok@ == old_rest.first());
        }
        let last_one = rest.len() == 0;
        match tok {
            Token::Open(n, attrs) => {
                let e = Element { name: n, attrs, text: String::new(), children: Vec::new() };
                proof {
                    assert(elems_view(e.children@) =~= Seq::<ElemV>::empty());
                    assert(e@.attrs =~= e.attrs@.map_values(|p: (String, String)| (p.0@, p.1@)));
                    lemma_elems_view_push(stack@, e);
                }
                stack.push(e);
            },
            Token::Text(t) => {
                proof {
                    assert(old_rest.first() == TokenV::Text(t@));
                }
                if stack.len() == 0 {
                    proof {
                        assert(old_stack.len() == 0);
                        assert(parse_run(old_rest, old_stack) is None);
                    }
                    return Err(DecodeError::Malformed);
                }
                let ghost pre = stack@;
                let mut top = match stack.pop() {
                    Some(x) => x,
                    None => {
                        return Err(DecodeError::Malformed);
                    },
                };
                proof {
                    assert(pre.drop_last().push(pre.last()) =~= pre);
                    lemma_elems_view_push(pre.drop_last(), pre.last());
                    assert(elems_view(stack@) == old_stack.drop_last());
                    assert(elem_view(top) == old_stack.last());
                }
                top.text.append(t.as_str());
                proof {
                    lemma_elems_view_push(stack@, top);
                    assert(elems_view(stack@.push(top)) =~= old_stack.drop_last().push(
                        elem_view(top),
                    ));
                }
                stack.push(top);
            },
            Token::Close(n) => {
                proof {
                    assert(old_rest.first() == TokenV::Close(n@));
                }
                if stack.len() == 0 {
                    proof {
                        assert(old_stack.len() == 0);
                        assert(parse_run(old_rest, old_stack) is None);
                    }
                    return Err(DecodeError::Malformed);
                }
                let ghost pre = stack@;
                let top = match stack.pop() {
                    Some(x) => x,
                    None => {
                        return Err(DecodeError::Malformed);
                    },
                };
                proof {
                    assert(pre.drop_last().push(pre.last()) =~= pre);
                    lemma_elems_view_push(pre.drop_last(), pre.last());
                    assert(elems_view(stack@) == old_stack.drop_last());
                    assert(elem_view(top) == old_stack.last());
                }
                if !str_eq(top.name.as_str(), n.as_str()) {
                    proof {
                        assert(old_stack.last().name != n@);
                        assert(parse_run(old_rest, old_stack) is None);
                    }
                    return Err(DecodeError::Malformed);
                }
                if stack.len() == 0 {
                    proof {
                        assert(old_stack.len() == 1);
                    }
                    if last_one {
                        proof {
                            assert(old_rest.len() == 1);
                            assert(parse_run(old_rest, old_stack) == Some(old_stack.last()));
                        }
                        return Ok(top);
                    }
                    proof {
                        assert(old_rest.len() != 1);
                        assert(parse_run(old_rest, old_stack) is None);
                    }
                    return Err(DecodeError::Malformed);
                }
                let ghost pre2 = stack@;
                let mut parent = match stack.pop() {
                    Some(x) => x,
                    None => {
                        return Err(DecodeError::Malformed);
                    },
                };
                proof {
                    assert(pre2.drop_last().push(pre2.last()) =~= pre2);
                    lemma_elems_view_push(pre2.drop_last(), pre2.last());
                    assert(elems_view(stack@) == old_stack.drop_last().drop_last());
                    assert(elem_view(parent) == old_stack.drop_last().last());
                    assert(old_stack[old_stack.len() - 2] == old_stack.drop_last().last());
                    lemma_elems_view_push(parent.children@, top);
                }
                parent.children.push(top);
                proof {
                    lemma_elems_view_push(stack@, parent);
                    assert(elem_view(parent) == ElemV {
                        name: old_stack[old_stack.len() - 2].name,
                        attrs: old_stack[old_stack.len() - 2].attrs,
                        text: old_stack[old_stack.len() - 2].text,
                        children: old_stack[old_stack.len() - 2].children.push(old_stack.last()),
                    });
                }
                stack.push(parent);
            },
            _ => {
                proof {
                    assert(!(old_rest.first() is Open));
                    assert(!(old_rest.first() is Text));
                    assert(!(old_rest.first() is Close));
                    assert(parse_run(old_rest, old_stack) is None);
                }
                return Err(DecodeError::Malformed);
            },
        }
    }
}


/// A character that surrounding trimming removes.
pub open spec fn is_ws(c: char) -> bool {
    c == ' ' || c == '\n' || c == '\t' || c == '\r'
}

/// The text with leading whitespace removed.
pub open spec fn trim_front(s: Seq<char>) -> Seq<char>
    decreases s.len(),
{
    if s.len() > 0 && is_ws(s.first()) {
        trim_front(s.drop_first())
    } else {
        s
    }
}

/// The text with trailing whitespace removed.
pub open spec fn trim_back(s: Seq<char>) -> Seq<char>
    decreases s.len(),
{
    if s.len() > 0 && is_ws(s.last()) {
        trim_back(s.drop_last())
    } else {
        s
    }
}

/// The text with surrounding whitespace removed; a document is allowed to be
/// padded with it.
pub open spec fn spec_trim(s: Seq<char>) -> Seq<char> {
    trim_back(trim_front(s))
}


fn is_ws_char(c: char) -> (r: bool)
    ensures
        r == is_ws(c),
{
    c == ' ' || c == '\n' || c == '\t' || c == '\r'
}

fn trim_str<'a>(s: &'a str) -> (r: &'a str)
    ensures
        r@ == spec_trim(s@),
{
    let n = s.unicode_len();
    proof {
        assert(s@.skip(0) =~= s@);
    }
    let mut i: usize = 0;
    while i < n && is_ws_char(s.get_char(i))
        invariant
            0 <= i <= n,
            n == s@.len(),
            trim_front(s@) == trim_front(s@.skip(i as int)),
        decreases n - i,
    {
        proof {
            assert(s@.skip(i as int).first() == s@[i as int]);
            assert(s@.skip(i as int).drop_first() =~= s@.skip(i + 1));
        }
        i += 1;
    }
    proof {
        if i < n {
            assert(s@.skip(i as int).first() == s@[i as int]);
        }
        assert(trim_front(s@) == s@.skip(i as int));
        assert(s@.skip(i as int) =~= s@.subrange(i as int, n as int));
    }
    let mut j: usize = n;
    while j > i && is_ws_char(s.get_char(j - 1))
        invariant
            i <= j <= n,
            n == s@.len(),
            trim_front(s@) == s@.subrange(i as int, n as int),
            trim_back(s@.subrange(i as int, n as int)) == trim_back(
                s@.subrange(i as int, j as int),
            ),
        decreases j,
    {
        proof {
            assert(s@.subrange(i as int, j as int).last() == s@[j - 1]);
            assert(s@.subrange(i as int, j as int).drop_last() =~= s@.subrange(
                i as int,
                j - 1,
            ));
        }
        j -= 1;
    }
    proof {
        if j > i {
            assert(s@.subrange(i as int, j as int).last() == s@[j - 1]);
        }
        assert(trim_back(s@.subrange(i as int, j as int)) == s@.subrange(i as int, j as int));
    }
    s.substring_char(i, j)
}

/// What decoding a whole text yields: surrounding whitespace is dropped, the
/// stream's element tokens build one element tree, and the tree decodes to a
/// document; malformed markup is the matching error.
pub open spec fn spec_decode_text(t: Seq<char>) -> Result<SdfV, DecodeError> {
    let ts = tokens_of(spec_trim(t));
    if stops_with_fail(ts) {
        Err(DecodeError::Malformed)
    } else {
        match spec_parse_tokens(body_tokens(ts)) {
            None => Err(DecodeError::Malformed),
            Some(e) => spec_decode_sdf(e),
        }
    }
}

/// Decodes one textual document into a typed document, or reports why it
/// cannot be: malformed markup, a wrong root shape, or a field that cannot be
/// converted. Every document it produces is well formed, so it round-trips.
pub fn decode(text: &str) -> (r: Result<Sdf, DecodeError>)
    ensures
        match r {
            Ok(d) => spec_decode_text(text@) == Ok::<SdfV, DecodeError>(d@) && d@.wf(),
            Err(er) => spec_decode_text(text@) == Err::<SdfV, DecodeError>(er),
        },
{
    let trimmed = trim_str(text);
    let tokens = match tokenize(trimmed) {
        Ok(v) => v,
        Err(er) => {
            return Err(er);
        },
    };
    let root = match parse_tokens(tokens) {
        Ok(e) => e,
        Err(er) => {
            return Err(er);
        },
    };
    decode_element(&root)
}

} // verus!
