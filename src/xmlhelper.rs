use vstd::prelude::*;

verus! {

/// One attribute of an element-open event.
#[derive(Debug)]
pub struct Attribute {
    pub name: String,
    pub value: String,
}

/// One event of a tokenized markup document.
#[derive(Debug)]
pub enum Event {
    StartElement { local_name: String, attributes: Vec<Attribute> },
    EndElement { local_name: String },
    Text { text: String },
}

/// The value of the first attribute called `name`, if any.
pub open spec fn attribute_value(attrs: Seq<Attribute>, name: Seq<char>) -> Option<Seq<char>>
    decreases attrs.len(),
{
    if attrs.len() == 0 {
        None
    } else if attrs[0].name@ == name {
        Some(attrs[0].value@)
    } else {
        attribute_value(attrs.drop_first(), name)
    }
}

/// Looks up the value of the attribute called `name`.
pub fn find_attribute<'a>(attrs: &'a Vec<Attribute>, name: &str) -> (r: Option<&'a String>)
    ensures
        match r {
            Some(v) => attribute_value(attrs@, name@) == Some(v@),
            None => attribute_value(attrs@, name@) is None,
        },
{
    let wanted = name.to_owned();
    let mut i: usize = 0;
    assert(attrs@.subrange(0, attrs@.len() as int) =~= attrs@);
    while i < attrs.len()
        invariant
            i <= attrs.len(),
            wanted@ == name@,
            attribute_value(attrs@.subrange(i as int, attrs@.len() as int), name@)
                == attribute_value(attrs@, name@),
        decreases attrs.len() - i,
    {
        let a = &attrs[i];
        assert(attrs@.subrange(i as int, attrs@.len() as int).drop_first()
            =~= attrs@.subrange(i + 1, attrs@.len() as int));
        if a.name == wanted {
            return Some(&a.value);
        }
        i = i + 1;
    }
    assert(attrs@.subrange(0, attrs@.len() as int) =~= attrs@);
    None
}

} // verus!
