use vstd::prelude::*;
use vstd::utf8::encode_utf8;

verus! {

/// Number of bytes in the UTF-8 encoding of a text.
pub open spec fn byte_len(s: Seq<char>) -> int {
    encode_utf8(s).len() as int
}

/// The number of bytes in the UTF-8 encoding of a text.
pub fn byte_length(s: &str) -> (r: usize)
    ensures
        r == byte_len(s@),
{
    s.as_bytes().len()
}

/// A size in bytes as a `usize` holds it: sizes past `usize::MAX` stop there.
pub open spec fn capped(n: int) -> int {
    if n <= usize::MAX {
        n
    } else {
        usize::MAX as int
    }
}

/// The value of one message attribute: a data-type tag and at most one of a
/// string value or a binary value.
#[derive(Debug)]
pub struct AttributeValue {
    pub data_type: String,
    pub string_value: Option<String>,
    pub binary_value: Option<Vec<u8>>,
}

/// The queue's sizing rule for one attribute: the lengths of its name, its
/// data type and whichever values it carries.
pub open spec fn attribute_entry_size(entry: (String, AttributeValue)) -> int {
    byte_len(entry.0@) + byte_len(entry.1.data_type@) + match entry.1.string_value {
        Some(s) => byte_len(s@),
        None => 0,
    } + match entry.1.binary_value {
        Some(b) => b@.len() as int,
        None => 0,
    }
}

/// The size of a list of attributes: the sum of the size of each entry.
pub open spec fn attributes_size(attrs: Seq<(String, AttributeValue)>) -> int
    decreases attrs.len(),
{
    if attrs.len() == 0 {
        0
    } else {
        attributes_size(attrs.drop_last()) + attribute_entry_size(attrs.last())
    }
}

/// The size of optional attributes: absent attributes count nothing.
pub open spec fn optional_attributes_size(attrs: Option<Vec<(String, AttributeValue)>>) -> int {
    match attrs {
        Some(a) => attributes_size(a@),
        None => 0,
    }
}

/// The size of an outbound message: body bytes plus attribute bytes.
pub open spec fn message_total_size(
    body: Seq<char>,
    attrs: Option<Vec<(String, AttributeValue)>>,
) -> int {
    byte_len(body) + optional_attributes_size(attrs)
}

/// Whether a message is moved to object storage: always when so configured,
/// otherwise only when its size is strictly above the threshold.
pub open spec fn should_offload(always: bool, size: int, threshold: int) -> bool {
    always || size > threshold
}

/// The offload boundary: a message exactly at the threshold stays in the
/// queue, one byte more is offloaded, and with offloading forced every
/// message is offloaded, the empty one too.
pub proof fn lemma_offload_boundary(always: bool, size: int, threshold: int)
    requires
        0 <= size,
        0 < threshold < usize::MAX,
    ensures
        size == threshold ==> (should_offload(always, capped(size), threshold) == always),
        size == threshold + 1 ==> should_offload(always, capped(size), threshold),
        always ==> should_offload(always, capped(size), threshold),
{
}

/// No list of attributes has a negative size.
pub proof fn lemma_attributes_size_nonneg(attrs: Seq<(String, AttributeValue)>)
    ensures
        attributes_size(attrs) >= 0,
    decreases attrs.len(),
{
    if attrs.len() > 0 {
        lemma_attributes_size_nonneg(attrs.drop_last());
    }
}

/// The size of two lists of attributes one after the other is the sum of
/// their sizes.
pub proof fn lemma_attributes_size_append(
    a: Seq<(String, AttributeValue)>,
    b: Seq<(String, AttributeValue)>,
)
    ensures
        attributes_size(a + b) == attributes_size(a) + attributes_size(b),
    decreases b.len(),
{
    if b.len() == 0 {
        assert(a + b =~= a);
    } else {
        assert((a + b).drop_last() =~= a + b.drop_last());
        assert((a + b).last() == b.last());
        lemma_attributes_size_append(a, b.drop_last());
    }
}

/// The size of attributes does not depend on their order: lists holding the
/// same entries, as a map walked in any order yields them, have one size.
pub proof fn lemma_attributes_size_any_order(
    a: Seq<(String, AttributeValue)>,
    b: Seq<(String, AttributeValue)>,
)
    requires
        a.to_multiset() == b.to_multiset(),
    ensures
        attributes_size(a) == attributes_size(b),
    decreases a.len(),
{
    broadcast use vstd::seq_lib::group_to_multiset_ensures;

    if a.len() == 0 {
        assert(b.to_multiset().len() == 0);
        assert(b =~= Seq::<(String, AttributeValue)>::empty());
    } else {
        let x = a.last();
        let rest = a.drop_last();
        assert(a =~= rest.push(x));
        assert(a.to_multiset().count(x) > 0);
        assert(b.contains(x));
        let i = choose|i: int| 0 <= i < b.len() && b[i] == x;
        let b2 = b.remove(i);
        assert(b2 =~= b.take(i) + b.skip(i + 1));
        assert(b =~= b.take(i) + (seq![x] + b.skip(i + 1)));
        lemma_attributes_size_append(b.take(i), seq![x] + b.skip(i + 1));
        lemma_attributes_size_append(seq![x], b.skip(i + 1));
        lemma_attributes_size_append(b.take(i), b.skip(i + 1));
        assert(seq![x].drop_last() =~= Seq::<(String, AttributeValue)>::empty());
        assert(seq![x].last() == x);
        assert(attributes_size(Seq::<(String, AttributeValue)>::empty()) == 0);
        assert(attributes_size(seq![x]) == attribute_entry_size(x));
        assert(attributes_size(a) == attributes_size(rest) + attribute_entry_size(x));
        assert(rest.to_multiset() =~= a.to_multiset().remove(x));
        assert(b2.to_multiset() =~= b.to_multiset().remove(x));
        lemma_attributes_size_any_order(rest, b2);
    }
}

/// Size of a pending message, split into body and attributes.
pub struct MessageSize {
    pub body_size: usize,
    pub attribute_size: usize,
}

impl MessageSize {
    /// The total size of the message, held at `usize::MAX` past it.
    pub fn total(self) -> (r: usize)
        ensures
            r == capped(self.body_size + self.attribute_size),
    {
        self.body_size.saturating_add(self.attribute_size)
    }
}

} // verus!
