use vstd::prelude::*;

verus! {

broadcast use vstd::std_specs::vec::axiom_vec_decreases_to_view, vstd::seq::axiom_seq_index_decreases;

/// A generic markup element: a named node with attributes, character data,
/// and ordered child elements.
#[derive(Debug, PartialEq, Eq)]
pub struct Element {
    pub name: String,
    pub attrs: Vec<(String, String)>,
    pub text: String,
    pub children: Vec<Element>,
}

/// Mathematical image of an [`Element`].
pub struct ElemV {
    pub name: Seq<char>,
    pub attrs: Seq<(Seq<char>, Seq<char>)>,
    pub text: Seq<char>,
    pub children: Seq<ElemV>,
}

pub open spec fn elem_view(e: Element) -> ElemV
    decreases e,
    via elem_view_decreases
{
    ElemV {
        name: e.name@,
        attrs: e.attrs@.map_values(|p: (String, String)| (p.0@, p.1@)),
        text: e.text@,
        children: elems_view(e.children@),
    }
}

pub open spec fn elems_view(cs: Seq<Element>) -> Seq<ElemV>
    decreases cs,
    via elems_view_decreases
{
    if cs.len() == 0 {
        Seq::empty()
    } else {
        elems_view(cs.drop_last()).push(elem_view(cs.last()))
    }
}

#[via_fn]
proof fn elem_view_decreases(e: Element) {
    assert(decreases_to!(e => e.children));
    assert(decreases_to!(e.children => e.children@));
    assert(decreases_to!(e => e.children@));
}

#[via_fn]
proof fn elems_view_decreases(cs: Seq<Element>) {
    if cs.len() > 0 {
        assert(decreases_to!(cs => cs[cs.len() - 1]));
        assert(cs.drop_last() == cs.subrange(0, cs.len() - 1));
        vstd::seq::axiom_seq_subrange_decreases(cs, 0, cs.len() - 1);
    }
}

impl View for Element {
    type V = ElemV;

    open spec fn view(&self) -> ElemV {
        elem_view(*self)
    }
}

/// `elems_view` is the element-wise image of the sequence.
pub proof fn lemma_elems_view(cs: Seq<Element>)
    ensures
        elems_view(cs).len() == cs.len(),
        forall|i: int| 0 <= i < cs.len() ==> elems_view(cs)[i] == elem_view(#[trigger] cs[i]),
    decreases cs.len(),
{
    if cs.len() > 0 {
        lemma_elems_view(cs.drop_last());
        assert forall|i: int| 0 <= i < cs.len() implies elems_view(cs)[i] == elem_view(
            #[trigger] cs[i],
        ) by {
            if i < cs.len() - 1 {
                assert(cs.drop_last()[i] == cs[i]);
            }
        }
    }
}

/// Appending an element extends the image by its view.
pub proof fn lemma_elems_view_push(cs: Seq<Element>, e: Element)
    ensures
        elems_view(cs.push(e)) == elems_view(cs).push(elem_view(e)),
{
    assert(cs.push(e).drop_last() =~= cs);
    assert(cs.push(e).last() == e);
}

/// Value of the first attribute with the given key, if any.
pub open spec fn attr_of(attrs: Seq<(Seq<char>, Seq<char>)>, key: Seq<char>) -> Option<Seq<char>>
    decreases attrs.len(),
{
    if attrs.len() == 0 {
        None
    } else if attrs.first().0 == key {
        Some(attrs.first().1)
    } else {
        attr_of(attrs.drop_first(), key)
    }
}

/// First child element with the given name, if any.
pub open spec fn first_child(cs: Seq<ElemV>, name: Seq<char>) -> Option<ElemV>
    decreases cs.len(),
{
    if cs.len() == 0 {
        None
    } else if cs.first().name == name {
        Some(cs.first())
    } else {
        first_child(cs.drop_first(), name)
    }
}

/// Text of the first child element with the given name, if any.
pub open spec fn child_text(cs: Seq<ElemV>, name: Seq<char>) -> Option<Seq<char>> {
    match first_child(cs, name) {
        Some(c) => Some(c.text),
        None => None,
    }
}

/// Relies on `<str as PartialEq>::eq`: equality of two string slices is
/// equality of their characters.
#[verifier::external_body]
pub fn str_eq(a: &str, b: &str) -> (r: bool)
    ensures
        r == (a@ == b@),
{
    a == b
}

impl Element {
    /// Value of the first attribute named `key`, if any.
    pub fn attr(&self, key: &str) -> (r: Option<&String>)
        ensures
            match r {
                Some(v) => attr_of(self@.attrs, key@) == Some(v@),
                None => attr_of(self@.attrs, key@) is None,
            },
    {
        proof {
            assert(self@.attrs.skip(0) =~= self@.attrs);
        }
        let mut j: usize = 0;
        while j < self.attrs.len()
            invariant
                0 <= j <= self.attrs.len(),
                attr_of(self@.attrs, key@) == attr_of(self@.attrs.skip(j as int), key@),
            decreases self.attrs.len() - j,
        {
            proof {
                assert(self@.attrs.skip(j as int).first() == (self.attrs@[j as int].0@, self.attrs@[j as int].1@));
            }
            if str_eq(self.attrs[j].0.as_str(), key) {
                return Some(&self.attrs[j].1);
            }
            proof {
                assert(self@.attrs.skip(j as int).drop_first() =~= self@.attrs.skip(j + 1));
            }
            j += 1;
        }
        proof {
            assert(self@.attrs.skip(j as int).len() == 0);
        }
        None
    }

    /// First child element named `name`, if any.
    pub fn child(&self, name: &str) -> (r: Option<&Element>)
        ensures
            match r {
                Some(c) => first_child(self@.children, name@) == Some(c@),
                None => first_child(self@.children, name@) is None,
            },
    {
        proof {
            lemma_elems_view(self.children@);
            assert(self@.children.skip(0) =~= self@.children);
        }
        let mut j: usize = 0;
        while j < self.children.len()
            invariant
                0 <= j <= self.children.len(),
                self@.children == elems_view(self.children@),
                self@.children.len() == self.children.len(),
                forall|i: int| 0 <= i < self.children.len() ==> self@.children[i] == elem_view(#[trigger] self.children@[i]),
                first_child(self@.children, name@) == first_child(self@.children.skip(j as int), name@),
            decreases self.children.len() - j,
        {
            proof {
                assert(self@.children.skip(j as int).first() == self@.children[j as int]);
            }
            if str_eq(self.children[j].name.as_str(), name) {
                return Some(&self.children[j]);
            }
            proof {
                assert(self@.children.skip(j as int).drop_first() =~= self@.children.skip(j + 1));
            }
            j += 1;
        }
        proof {
            assert(self@.children.skip(j as int).len() == 0);
        }
        None
    }

    /// Text of the first child element named `name`, cloned, if any.
    pub fn child_text(&self, name: &str) -> (r: Option<String>)
        ensures
            opt_seq(r) == child_text(self@.children, name@),
    {
        match self.child(name) {
            Some(c) => Some(c.text.clone()),
            None => None,
        }
    }
}

/// Mathematical image of an optional string.
pub open spec fn opt_seq(o: Option<String>) -> Option<Seq<char>> {
    match o {
        Some(s) => Some(s@),
        None => None,
    }
}

} // verus!
