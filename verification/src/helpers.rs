//! Reading the string properties of the attributes on a variant.

use crate::model::{Attribute, NestedItem};
use vstd::prelude::*;

verus! {

/// The value of `item` where it is the property `prop`.
pub open spec fn item_values(item: NestedItem, prop: Seq<char>) -> Seq<Seq<char>> {
    match item {
        NestedItem::Property { name, value } => if name@ == prop {
            seq![value@]
        } else {
            Seq::empty()
        },
        NestedItem::Other => Seq::empty(),
    }
}

/// The values of the property `prop` among `items`, in their order.
pub open spec fn items_values(items: Seq<NestedItem>, prop: Seq<char>) -> Seq<Seq<char>>
    decreases items.len(),
{
    if items.len() == 0 {
        Seq::empty()
    } else {
        items_values(items.drop_last(), prop) + item_values(items.last(), prop)
    }
}

/// The values of the property `prop` in `attribute`, where that is a list
/// attribute named `attr`.
pub open spec fn attr_values(attribute: Attribute, attr: Seq<char>, prop: Seq<char>) -> Seq<
    Seq<char>,
> {
    match attribute {
        Attribute::List { name, items } => if name@ == attr {
            items_values(items@, prop)
        } else {
            Seq::empty()
        },
        Attribute::Other => Seq::empty(),
    }
}

/// Every value given to the property `prop` in the list attributes named
/// `attr`, in the order in which they are written.
pub open spec fn extracted(attrs: Seq<Attribute>, attr: Seq<char>, prop: Seq<char>) -> Seq<
    Seq<char>,
>
    decreases attrs.len(),
{
    if attrs.len() == 0 {
        Seq::empty()
    } else {
        extracted(attrs.drop_last(), attr, prop) + attr_values(attrs.last(), attr, prop)
    }
}

/// The characters of each string of `strs`.
pub open spec fn texts(strs: Seq<&str>) -> Seq<Seq<char>> {
    strs.map_values(|s: &str| s@)
}

/// `str::eq`: whether two strings hold the same characters.
#[verifier::external_body]
fn same_str(a: &str, b: &str) -> (r: bool)
    ensures
        r == (a@ == b@),
{
    a == b
}

/// Adds to `found` the values of the property `prop` among `items`.
fn collect_values<'a>(found: &mut Vec<&'a str>, items: &'a [NestedItem], prop: &str)
    ensures
        texts(final(found)@) == texts(old(found)@) + items_values(items@, prop@),
{
    let mut j: usize = 0;
    assert(texts(found@) =~= texts(old(found)@) + items_values(items@.take(0), prop@));
    while j < items.len()
        invariant
            j <= items.len(),
            texts(found@) == texts(old(found)@) + items_values(items@.take(j as int), prop@),
        decreases items.len() - j,
    {
        let ghost before = found@;
        match &items[j] {
            NestedItem::Property { name, value } => {
                if same_str(name.as_str(), prop) {
                    found.push(value.as_str());
                }
            },
            NestedItem::Other => {},
        }
        proof {
            assert(items@.take(j + 1).drop_last() =~= items@.take(j as int));
            assert(texts(found@) =~= texts(before) + item_values(items@[j as int], prop@));
        }
        j += 1;
    }
    assert(items@.take(j as int) =~= items@);
}

/// Collects the values of the property `prop` from the list attributes
/// named `attr`.
pub fn extract_attrs<'a>(attrs: &'a [Attribute], attr: &str, prop: &str) -> (found: Vec<&'a str>)
    ensures
        texts(found@) == extracted(attrs@, attr@, prop@),
{
    let mut found: Vec<&'a str> = Vec::new();
    let mut i: usize = 0;
    assert(texts(found@) =~= extracted(attrs@.take(0), attr@, prop@));
    while i < attrs.len()
        invariant
            i <= attrs.len(),
            texts(found@) == extracted(attrs@.take(i as int), attr@, prop@),
        decreases attrs.len() - i,
    {
        let ghost before = found@;
        match &attrs[i] {
            Attribute::List { name, items } => {
                if same_str(name.as_str(), attr) {
                    collect_values(&mut found, items.as_slice(), prop);
                }
            },
            Attribute::Other => {},
        }
        proof {
            assert(attrs@.take(i + 1).drop_last() =~= attrs@.take(i as int));
            assert(texts(found@) =~= texts(before) + attr_values(attrs@[i as int], attr@, prop@));
        }
        i += 1;
    }
    assert(attrs@.take(i as int) =~= attrs@);
    found
}

/// The one value of the property `prop`, if it has one. More than one value
/// is a mistake in the declaration.
pub fn unique_attr<'a>(attrs: &'a [Attribute], attr: &str, prop: &str) -> (value: Option<&'a str>)
    requires
        extracted(attrs@, attr@, prop@).len() <= 1,
    ensures
        match value {
            Some(s) => extracted(attrs@, attr@, prop@) == seq![s@],
            None => extracted(attrs@, attr@, prop@).len() == 0,
        },
{
    let mut curr = extract_attrs(attrs, attr, prop);
    let value = curr.pop();
    proof {
        if value is Some {
            assert(extracted(attrs@, attr@, prop@) =~= seq![value.unwrap()@]);
        }
    }
    value
}

/// Whether the variant is marked `#[strum(disabled = "true")]`. More than
/// one value for `disabled` is a mistake in the declaration.
pub fn is_disabled(attrs: &[Attribute]) -> (disabled: bool)
    requires
        extracted(attrs@, "strum"@, "disabled"@).len() <= 1,
    ensures
        disabled == (extracted(attrs@, "strum"@, "disabled"@) == seq!["true"@]),
{
    let v = extract_attrs(attrs, "strum", "disabled");
    let ghost ex = extracted(attrs@, "strum"@, "disabled"@);
    if v.len() == 0 {
        false
    } else {
        let r = same_str(v[0], "true");
        proof {
            assert(ex[0] == v@[0]@);
            if r {
                assert(ex =~= seq!["true"@]);
            } else {
                assert(seq!["true"@][0] == "true"@);
            }
        }
        r
    }
}

} // verus!
