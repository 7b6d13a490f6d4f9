//! Texts that are made of labels and values, JSON objects among them.

use vstd::prelude::*;

verus! {

/// The start of a JSON object with the given names and the texts of their values.
pub open spec fn fields_text(fields: Seq<(Seq<char>, Seq<char>)>) -> Seq<char>
    decreases fields.len(),
{
    if fields.len() == 0 {
        seq!['{']
    } else {
        fields_text(fields.drop_last()) + (if fields.len() > 1 {
            seq![',']
        } else {
            Seq::empty()
        }) + seq!['"'] + fields.last().0 + seq!['"', ':'] + fields.last().1
    }
}

/// The JSON object with the given names and the texts of their values, in that order.
pub open spec fn object_text(fields: Seq<(Seq<char>, Seq<char>)>) -> Seq<char> {
    fields_text(fields) + seq!['}']
}

/// A field comes behind those that stand already.
pub proof fn lemma_field_follows(
    fields: Seq<(Seq<char>, Seq<char>)>,
    start: Seq<char>,
    name: Seq<char>,
    mark: Seq<char>,
    value: Seq<char>,
)
    requires
        start == fields_text(fields),
        mark == (if fields.len() > 0 {
            seq![',', '"']
        } else {
            seq!['"']
        }) + name + seq!['"', ':'],
    ensures
        start + mark + value == fields_text(fields.push((name, value))),
{
    let all = fields.push((name, value));
    assert(all.drop_last() =~= fields);
    assert(start + mark + value =~= fields_text(all));
}

/// A text of labels, each with a value behind it.
pub open spec fn labelled(parts: Seq<(Seq<char>, Seq<char>)>) -> Seq<char>
    decreases parts.len(),
{
    if parts.len() == 0 {
        Seq::empty()
    } else {
        labelled(parts.drop_last()) + parts.last().0 + parts.last().1
    }
}

/// A label and its value come behind those that stand already.
pub proof fn lemma_label_follows(
    parts: Seq<(Seq<char>, Seq<char>)>,
    label: Seq<char>,
    value: Seq<char>,
)
    ensures
        labelled(parts.push((label, value))) == labelled(parts) + label + value,
{
    assert(parts.push((label, value)).drop_last() =~= parts);
}

/// The first label stands at the start.
pub proof fn lemma_first_label(label: Seq<char>, value: Seq<char>)
    ensures
        labelled(seq![(label, value)]) == label + value,
{
    let none = Seq::<(Seq<char>, Seq<char>)>::empty();
    lemma_label_follows(none, label, value);
    assert(none.push((label, value)) =~= seq![(label, value)]);
    assert(labelled(none) + label + value =~= label + value);
}

} // verus!
