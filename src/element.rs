use vstd::prelude::*;

use crate::error::Error;
use crate::text::{int_value, parse_i32, text_eq};

verus! {

/// A node of the wire tree: a name, string attributes in order, and child
/// nodes in order.
#[derive(Debug, PartialEq, Eq)]
pub struct Element {
    pub name: String,
    pub attributes: Vec<(String, String)>,
    pub childs: Vec<Element>,
}

/// The value of the first attribute named `key`, if any.
pub open spec fn find_attr(attrs: Seq<(String, String)>, key: Seq<char>) -> Option<Seq<char>>
    decreases attrs.len(),
{
    if attrs.len() == 0 {
        None
    } else {
        match find_attr(attrs.drop_last(), key) {
            Some(v) => Some(v),
            None => if attrs.last().0@ == key {
                Some(attrs.last().1@)
            } else {
                None
            },
        }
    }
}

/// The index of the first node named `name`, if any.
pub open spec fn find_child(cs: Seq<Element>, name: Seq<char>) -> Option<int>
    decreases cs.len(),
{
    if cs.len() == 0 {
        None
    } else {
        match find_child(cs.drop_last(), name) {
            Some(i) => Some(i),
            None => if cs.last().name@ == name {
                Some(cs.len() - 1)
            } else {
                None
            },
        }
    }
}

/// The `i32` value of the first attribute named `key`, if it is there and
/// holds an integer that fits.
pub open spec fn attr_i32(e: Element, key: Seq<char>) -> Option<i32> {
    match find_attr(e.attributes@, key) {
        Some(t) => match int_value(t) {
            Some(v) => if i32::MIN <= v <= i32::MAX {
                Some(v as i32)
            } else {
                None
            },
            None => None,
        },
        None => None,
    }
}

/// The text of attributes `attrs`: each as a space, its name, `="`, its value and `"`.
pub open spec fn render_attrs(attrs: Seq<(String, String)>) -> Seq<char>
    decreases attrs.len(),
{
    if attrs.len() == 0 {
        Seq::empty()
    } else {
        render_attrs(attrs.drop_last()) + " "@ + attrs.last().0@ + "=\""@ + attrs.last().1@ + "\""@
    }
}

/// The XML text of `e`, written compactly: a self-closing tag when it has no
/// children, else an opening tag, the texts of its children in order, and a
/// closing tag. Names and values are written as they are.
pub open spec fn render(e: Element) -> Seq<char>
    decreases e, e.childs@.len() + 1,
{
    let open = "<"@ + e.name@ + render_attrs(e.attributes@);
    if e.childs@.len() == 0 {
        open + "/>"@
    } else {
        open + ">"@ + render_children(e, e.childs@.len() as int) + "</"@ + e.name@ + ">"@
    }
}

/// The XML texts of the first `n` children of `e`, one after another.
pub open spec fn render_children(e: Element, n: int) -> Seq<char>
    decreases e, n,
{
    if n <= 0 || n > e.childs@.len() {
        Seq::empty()
    } else {
        render_children(e, n - 1) + render(e.childs@[n - 1])
    }
}

/// Whether `err` is the error for a missing or malformed integer attribute `key` of `e`.
pub open spec fn int_attr_error(e: Element, key: Seq<char>, err: Error) -> bool {
    match find_attr(e.attributes@, key) {
        Some(t) => err matches Error::MalformedValue(n, raw) && n@ == key && raw@ == t,
        None => err matches Error::MissingAttribute(n) && n@ == key,
    }
}

impl Element {
    /// A node with the given name, no attributes and no children.
    pub fn new(name: &str) -> (e: Element)
        ensures
            e.name@ == name@,
            e.attributes@.len() == 0,
            e.childs@.len() == 0,
    {
        Element { name: name.to_owned(), attributes: Vec::new(), childs: Vec::new() }
    }

    /// This node with one more attribute, after those it has.
    pub fn with_attribute(self, key: &str, value: String) -> (e: Element)
        ensures
            e.name == self.name,
            e.childs == self.childs,
            e.attributes@.len() == self.attributes@.len() + 1,
            e.attributes@.drop_last() == self.attributes@,
            e.attributes@.last().0@ == key@,
            e.attributes@.last().1@ == value@,
    {
        let mut e = self;
        e.attributes.push((key.to_owned(), value));
        proof {
            assert(e.attributes@.drop_last() =~= self.attributes@);
        }
        e
    }

    /// This node with one more child, after those it has.
    pub fn with_child(self, child: Element) -> (e: Element)
        ensures
            e.name == self.name,
            e.attributes == self.attributes,
            e.childs@ == self.childs@.push(child),
    {
        let mut e = self;
        e.childs.push(child);
        e
    }

    /// This node with more children, after those it has, in order.
    pub fn with_childs(self, childs: Vec<Element>) -> (e: Element)
        ensures
            e.name == self.name,
            e.attributes == self.attributes,
            e.childs@ == self.childs@ + childs@,
    {
        let mut e = self;
        let mut more = childs;
        e.childs.append(&mut more);
        e
    }

    /// The value of the first attribute named `key`.
    pub fn attribute(&self, key: &str) -> (r: Result<&String, Error>)
        ensures
            match find_attr(self.attributes@, key@) {
                Some(v) => r matches Ok(s) && s@ == v,
                None => r matches Err(Error::MissingAttribute(n)) && n@ == key@,
            },
    {
        let mut i: usize = 0;
        while i < self.attributes.len()
            invariant
                0 <= i <= self.attributes@.len(),
                find_attr(self.attributes@.take(i as int), key@) is None,
            decreases self.attributes@.len() - i,
        {
            proof {
                assert(self.attributes@.take(i + 1).drop_last() =~= self.attributes@.take(i as int));
            }
            if text_eq(self.attributes[i].0.as_str(), key) {
                proof { lemma_find_attr_prefix(self.attributes@, key@, i + 1); }
                return Ok(&self.attributes[i].1);
            }
            i = i + 1;
        }
        proof {
            assert(self.attributes@.take(i as int) =~= self.attributes@);
        }
        Err(Error::MissingAttribute(key.to_owned()))
    }

    /// The value of the first attribute named `key`, read as an `i32`.
    pub fn attribute_i32(&self, key: &str) -> (r: Result<i32, Error>)
        ensures
            match attr_i32(*self, key@) {
                Some(v) => r == Ok::<i32, Error>(v),
                None => r matches Err(err) && int_attr_error(*self, key@, err),
            },
    {
        let t = match self.attribute(key) {
            Ok(t) => t,
            Err(e) => return Err(e),
        };
        match parse_i32(t.as_str()) {
            Some(v) => Ok(v),
            None => Err(Error::MalformedValue(key.to_owned(), t.clone())),
        }
    }

    /// The first child named `name`.
    pub fn child_by_name(&self, name: &str) -> (r: Result<&Element, Error>)
        ensures
            match find_child(self.childs@, name@) {
                Some(i) => r matches Ok(c) && *c == self.childs@[i],
                None => r matches Err(Error::MissingChild(n)) && n@ == name@,
            },
    {
        let mut i: usize = 0;
        while i < self.childs.len()
            invariant
                0 <= i <= self.childs@.len(),
                find_child(self.childs@.take(i as int), name@) is None,
            decreases self.childs@.len() - i,
        {
            proof {
                assert(self.childs@.take(i + 1).drop_last() =~= self.childs@.take(i as int));
            }
            if text_eq(self.childs[i].name.as_str(), name) {
                proof { lemma_find_child_prefix(self.childs@, name@, i + 1); }
                return Ok(&self.childs[i]);
            }
            i = i + 1;
        }
        proof {
            assert(self.childs@.take(i as int) =~= self.childs@);
        }
        Err(Error::MissingChild(name.to_owned()))
    }
}

/// Appends the XML text of `e` to `out`.
fn write_xml(e: &Element, out: &mut String)
    ensures
        final(out)@ == old(out)@ + render(*e),
    decreases e, e.childs@.len() + 1,
{
    out.append("<");
    out.append(e.name.as_str());
    let mut i: usize = 0;
    while i < e.attributes.len()
        invariant
            0 <= i <= e.attributes@.len(),
            out@ == old(out)@ + "<"@ + e.name@ + render_attrs(e.attributes@.take(i as int)),
        decreases e.attributes@.len() - i,
    {
        proof {
            assert(e.attributes@.take(i + 1).drop_last() =~= e.attributes@.take(i as int));
        }
        out.append(" ");
        out.append(e.attributes[i].0.as_str());
        out.append("=\"");
        out.append(e.attributes[i].1.as_str());
        out.append("\"");
        i = i + 1;
    }
    proof {
        assert(e.attributes@.take(i as int) =~= e.attributes@);
    }
    if e.childs.len() == 0 {
        out.append("/>");
        return;
    }
    out.append(">");
    let ghost start = out@;
    let mut j: usize = 0;
    while j < e.childs.len()
        invariant
            0 <= j <= e.childs@.len(),
            out@ == start + render_children(*e, j as int),
        decreases e.childs@.len() - j,
    {
        proof {
            assert(decreases_to!(e.childs => e.childs@[j as int]));
        }
        write_xml(&e.childs[j], out);
        j = j + 1;
    }
    out.append("</");
    out.append(e.name.as_str());
    out.append(">");
}

impl Element {
    /// The XML text of this node.
    pub fn to_xml(&self) -> (r: String)
        ensures
            r@ == render(*self),
    {
        let mut out = String::new();
        write_xml(self, &mut out);
        out
    }
}

/// Once a prefix holds the key, the whole sequence finds the same value.
proof fn lemma_find_attr_prefix(attrs: Seq<(String, String)>, key: Seq<char>, n: int)
    requires
        0 <= n <= attrs.len(),
        find_attr(attrs.take(n), key) is Some,
    ensures
        find_attr(attrs, key) == find_attr(attrs.take(n), key),
    decreases attrs.len() - n,
{
    if n < attrs.len() {
        assert(attrs.take(n + 1).drop_last() =~= attrs.take(n));
        lemma_find_attr_prefix(attrs, key, n + 1);
    } else {
        assert(attrs.take(n) =~= attrs);
    }
}

/// Once a prefix holds the name, the whole sequence finds the same index.
proof fn lemma_find_child_prefix(cs: Seq<Element>, name: Seq<char>, n: int)
    requires
        0 <= n <= cs.len(),
        find_child(cs.take(n), name) is Some,
    ensures
        find_child(cs, name) == find_child(cs.take(n), name),
    decreases cs.len() - n,
{
    if n < cs.len() {
        assert(cs.take(n + 1).drop_last() =~= cs.take(n));
        lemma_find_child_prefix(cs, name, n + 1);
    } else {
        assert(cs.take(n) =~= cs);
    }
}

} // verus!
