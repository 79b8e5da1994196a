use vstd::prelude::*;

verus! {

broadcast use vstd::std_specs::vec::axiom_vec_index_decreases, vstd::seq::axiom_seq_index_decreases;

use crate::elem::{Element, ElemV, elem_view, elems_view, lemma_elems_view};
use crate::model::{Sdf, SdfV};
use crate::encode::{enc_sdf, encode_element};

/// Why an encode failed: only a fault of an underlying writer could; the
/// writer here is in memory and never does, so this error is never produced.
#[derive(Debug, Clone, Copy, PartialEq, Eq, Structural)]
pub enum EncodeError {
    WriteFailed,
}

/// The written form of one character inside character data or an attribute
/// value: markup-significant characters become entities.
pub open spec fn esc_char(c: char) -> Seq<char> {
    if c == '&' {
        "&amp;"@
    } else if c == '<' {
        "&lt;"@
    } else if c == '>' {
        "&gt;"@
    } else if c == '"' {
        "&quot;"@
    } else if c == '\'' {
        "&apos;"@
    } else {
        seq![c]
    }
}

/// The written form of a whole text, character by character.
pub open spec fn escape(s: Seq<char>) -> Seq<char>
    decreases s.len(),
{
    if s.len() == 0 {
        Seq::empty()
    } else {
        escape(s.drop_last()) + esc_char(s.last())
    }
}

/// The written form of one attribute.
pub open spec fn attr_text(p: (Seq<char>, Seq<char>)) -> Seq<char> {
    " "@ + p.0 + "=\""@ + escape(p.1) + "\""@
}

/// The written form of an attribute list.
pub open spec fn attrs_text(attrs: Seq<(Seq<char>, Seq<char>)>) -> Seq<char>
    decreases attrs.len(),
{
    if attrs.len() == 0 {
        Seq::empty()
    } else {
        attrs_text(attrs.drop_last()) + attr_text(attrs.last())
    }
}

/// The written form of one element: tag, attributes, character data and
/// children in order; an element with neither data nor children closes
/// itself.
pub open spec fn xml_text(e: ElemV) -> Seq<char>
    decreases e,
    via xml_text_decreases
{
    "<"@ + e.name + attrs_text(e.attrs) + (if e.text.len() == 0 && e.children.len() == 0 {
        "/>"@
    } else {
        ">"@ + escape(e.text) + children_text(e.children) + "</"@ + e.name + ">"@
    })
}

/// The written form of a list of child elements.
pub open spec fn children_text(cs: Seq<ElemV>) -> Seq<char>
    decreases cs,
    via children_text_decreases
{
    if cs.len() == 0 {
        Seq::empty()
    } else {
        children_text(cs.drop_last()) + xml_text(cs.last())
    }
}

#[via_fn]
proof fn xml_text_decreases(e: ElemV) {
    assert(decreases_to!(e => e.children));
}

#[via_fn]
proof fn children_text_decreases(cs: Seq<ElemV>) {
    if cs.len() > 0 {
        assert(decreases_to!(cs => cs[cs.len() - 1]));
        assert(cs.drop_last() == cs.subrange(0, cs.len() - 1));
        vstd::seq::axiom_seq_subrange_decreases(cs, 0, cs.len() - 1);
    }
}

/// Relies on `String::push`: appends one character to the end.
#[verifier::external_body]
fn push_char(s: &mut String, c: char)
    ensures
        final(s)@ == old(s)@.push(c),
{
    s.push(c);
}

fn escape_append(out: &mut String, s: &str)
    ensures
        final(out)@ == old(out)@ + escape(s@),
{
    let ghost base = out@;
    let n = s.unicode_len();
    proof {
        assert(base + escape(s@.take(0)) =~= base);
    }
    let mut i: usize = 0;
    while i < n
        invariant
            0 <= i <= n,
            n == s@.len(),
            out@ == base + escape(s@.take(i as int)),
        decreases n - i,
    {
        let c = s.get_char(i);
        proof {
            assert(s@.take(i + 1).drop_last() =~= s@.take(i as int));
            assert(s@.take(i + 1).last() == s@[i as int]);
        }
        if c == '&' {
            out.append("&amp;");
        } else if c == '<' {
            out.append("&lt;");
        } else if c == '>' {
            out.append("&gt;");
        } else if c == '"' {
            out.append("&quot;");
        } else if c == '\'' {
            out.append("&apos;");
        } else {
            push_char(out, c);
            proof {
                assert(out@ =~= base + escape(s@.take(i as int)) + seq![c]);
            }
        }
        proof {
            assert(out@ =~= base + (escape(s@.take(i as int)) + esc_char(s@[i as int])));
        }
        i += 1;
    }
    proof {
        assert(s@.take(n as int) =~= s@);
    }
}

fn element_append(e: &Element, out: &mut String)
    ensures
        final(out)@ == old(out)@ + xml_text(e@),
    decreases *e,
{
    let ghost base = out@;
    out.append("<");
    out.append(e.name.as_str());
    let ghost base_a = out@;
    proof {
        assert(base_a + attrs_text(e@.attrs.take(0)) =~= base_a);
        assert(e@.attrs.len() == e.attrs@.len());
    }
    let mut j: usize = 0;
    while j < e.attrs.len()
        invariant
            0 <= j <= e.attrs.len(),
            e@.attrs.len() == e.attrs@.len(),
            forall|i: int| 0 <= i < e.attrs@.len() ==> e@.attrs[i] == (
                #[trigger] e.attrs@[i].0@,
                e.attrs@[i].1@,
            ),
            out@ == base_a + attrs_text(e@.attrs.take(j as int)),
        decreases e.attrs.len() - j,
    {
        proof {
            assert(e@.attrs.take(j + 1).drop_last() =~= e@.attrs.take(j as int));
            assert(e@.attrs.take(j + 1).last() == e@.attrs[j as int]);
        }
        out.append(" ");
        out.append(e.attrs[j].0.as_str());
        out.append("=\"");
        escape_append(out, e.attrs[j].1.as_str());
        out.append("\"");
        proof {
            assert(out@ =~= base_a + (attrs_text(e@.attrs.take(j as int)) + attr_text(
                e@.attrs[j as int],
            )));
        }
        j += 1;
    }
    proof {
        assert(e@.attrs.take(e@.attrs.len() as int) =~= e@.attrs);
        assert(out@ =~= base + ("<"@ + e@.name + attrs_text(e@.attrs)));
    }
    let ghost base_b = out@;
    if e.text.as_str().is_empty() && e.children.len() == 0 {
        out.append("/>");
        proof {
            assert(e@.text.len() == 0);
            assert(e@.children.len() == 0);
            assert(out@ =~= base + xml_text(e@));
        }
    } else {
        out.append(">");
        escape_append(out, e.text.as_str());
        let ghost base_c = out@;
        proof {
            lemma_elems_view(e.children@);
            assert(base_c + children_text(e@.children.take(0)) =~= base_c);
        }
        let mut k: usize = 0;
        while k < e.children.len()
            invariant
                0 <= k <= e.children.len(),
                e@.children == elems_view(e.children@),
                e@.children.len() == e.children@.len(),
                forall|i: int| 0 <= i < e.children@.len() ==> e@.children[i] == elem_view(
                    #[trigger] e.children@[i],
                ),
                out@ == base_c + children_text(e@.children.take(k as int)),
            decreases e.children.len() - k,
        {
            proof {
                assert(e@.children.take(k + 1).drop_last() =~= e@.children.take(k as int));
                assert(e@.children.take(k + 1).last() == e@.children[k as int]);
                assert(decreases_to!(*e => e.children));
                assert(decreases_to!(e.children => e.children[k as int]));
            }
            element_append(&e.children[k], out);
            proof {
                assert(out@ =~= base_c + (children_text(e@.children.take(k as int)) + xml_text(
                    e@.children[k as int],
                )));
            }
            k += 1;
        }
        proof {
            assert(e@.children.take(e@.children.len() as int) =~= e@.children);
        }
        out.append("</");
        out.append(e.name.as_str());
        out.append(">");
        proof {
            assert(!(e@.text.len() == 0 && e@.children.len() == 0));
            assert(out@ =~= base + xml_text(e@));
        }
    }
}

/// The text that encoding a document writes.
pub open spec fn spec_encode_text(v: SdfV) -> Seq<char> {
    xml_text(enc_sdf(v))
}

/// Encodes a typed document as text. A valid in-memory document never fails
/// to encode: the result is always the written form of the document's image,
/// and decoding it gives the document back (see the round-trip law).
pub fn encode(d: &Sdf) -> (r: Result<String, EncodeError>)
    ensures
        r matches Ok(s) && s@ == spec_encode_text(d@),
{
    let e = encode_element(d);
    let mut out = String::new();
    proof {
        assert(out@ + xml_text(e@) =~= xml_text(e@));
    }
    element_append(&e, &mut out);
    Ok(out)
}

} // verus!
