use vstd::prelude::*;

verus! {

/// A counter increment to report: the counter's name and, where it has one,
/// a tag as a key and a value.
#[derive(Clone, Debug, PartialEq, Eq)]
pub struct Metric {
    pub name: String,
    pub tag: Option<(String, String)>,
}

impl Metric {
    /// This metric is the counter `name` with the tag `tag`.
    pub open spec fn is(&self, name: Seq<char>, tag: Option<(Seq<char>, Seq<char>)>) -> bool {
        &&& self.name@ == name
        &&& match (self.tag, tag) {
            (None, None) => true,
            (Some((k, v)), Some((sk, sv))) => k@ == sk && v@ == sv,
            _ => false,
        }
    }

    /// A counter without a tag.
    pub fn counter(name: &str) -> (r: Metric)
        ensures
            r.is(name@, None),
    {
        Metric { name: String::from_str(name), tag: None }
    }

    /// A counter with the tag `key:value`.
    pub fn tagged(name: &str, key: &str, value: &str) -> (r: Metric)
        ensures
            r.is(name@, Some((key@, value@))),
    {
        Metric {
            name: String::from_str(name),
            tag: Some((String::from_str(key), String::from_str(value))),
        }
    }
}

/// The `status` tag of a response's timing: `success` for a 2xx status,
/// `error` otherwise.
pub open spec fn status_tag(status: u16) -> Seq<char> {
    if 200 <= status && status <= 299 {
        "success"@
    } else {
        "error"@
    }
}

/// The `status` tag of a response's timing.
pub fn response_status(status: u16) -> (r: String)
    ensures
        r@ == status_tag(status),
{
    if 200 <= status && status <= 299 {
        String::from_str("success")
    } else {
        String::from_str("error")
    }
}

/// `after` is `before` with the metric `name` / `tag` reported last.
pub open spec fn reported(
    before: Seq<Metric>,
    after: Seq<Metric>,
    name: Seq<char>,
    tag: Option<(Seq<char>, Seq<char>)>,
) -> bool {
    &&& after.len() == before.len() + 1
    &&& after.subrange(0, before.len() as int) == before
    &&& after.last().is(name, tag)
}

} // verus!
