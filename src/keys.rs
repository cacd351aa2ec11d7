use vstd::prelude::*;

use crate::errors::ClassifyError;

verus! {

/// The pattern of the keys reserved for the downstream integration: a fixed
/// prefix, then one to forty word characters.
pub const DOWNSTREAM_KEY_PATTERN: &'static str = "^firefox-downstream-\\w{1,40}$";

/// What regex makes of `text` against `pattern`: whether it matches, or
/// `None` where the pattern does not compile.
pub uninterp spec fn regex_verdict(pattern: Seq<char>, text: Seq<char>) -> Option<bool>;

/// Relies on regex's `Regex::new` and `Regex::is_match`: compiles `pattern`
/// and tells whether it matches somewhere in `text`; both depend on the two
/// strings alone.
#[verifier::external_body]
fn regex_match(pattern: &str, text: &str) -> (r: Option<bool>)
    ensures
        r == regex_verdict(pattern@, text@),
{
    regex::Regex::new(pattern).ok().map(|re| re.is_match(text))
}

/// Whether `key` follows the reserved downstream pattern.
pub open spec fn is_downstream_key(key: Seq<char>) -> bool {
    regex_verdict(DOWNSTREAM_KEY_PATTERN@, key) == Some(true)
}

/// The decision on a key: admitted where it follows the reserved pattern
/// (`verdict` is what the pattern made of it), else where the allow-list
/// holds it.
pub open spec fn key_admitted(verdict: Option<bool>, key: Seq<char>, allowed: Set<Seq<char>>) -> bool {
    verdict == Some(true) || allowed.contains(key)
}

/// The outcome of the key check.
#[derive(Clone, Copy, Debug, PartialEq, Eq, Structural)]
pub enum Authorization {
    Authorized,
    Denied,
}

/// The key policy: the reserved pattern and a fixed allow-list of keys.
pub struct ApiKeyPolicy {
    allow_list: Vec<String>,
}

impl ApiKeyPolicy {
    /// The keys of the allow-list.
    pub closed spec fn allowed(&self) -> Set<Seq<char>> {
        Set::new(
            |k: Seq<char>|
                exists|i: int| 0 <= i < self.allow_list@.len() && #[trigger] self.allow_list@[i]@ == k,
        )
    }

    /// A policy with the given allow-list.
    pub fn new(allow_list: Vec<String>) -> (r: ApiKeyPolicy)
        ensures
            forall|k: Seq<char>|
                #[trigger] r.allowed().contains(k) <==> exists|i: int|
                    0 <= i < allow_list@.len() && #[trigger] allow_list@[i]@ == k,
    {
        ApiKeyPolicy { allow_list }
    }

    /// Whether the allow-list holds `key`.
    pub fn allows(&self, key: &str) -> (r: bool)
        ensures
            r == self.allowed().contains(key@),
    {
        let wanted = String::from_str(key);
        let mut i: usize = 0;
        while i < self.allow_list.len()
            invariant
                i <= self.allow_list@.len(),
                wanted@ == key@,
                forall|j: int| 0 <= j < i ==> #[trigger] self.allow_list@[j]@ != key@,
            decreases self.allow_list@.len() - i,
        {
            if self.allow_list[i] == wanted {
                assert(self.allowed().contains(key@));
                return true;
            }
            i = i + 1;
        }
        false
    }

    /// The decision on a key, given what the reserved pattern made of it.
    pub fn decide(&self, key: &str, verdict: Option<bool>) -> (r: Authorization)
        ensures
            (r == Authorization::Authorized) == key_admitted(verdict, key@, self.allowed()),
    {
        if verdict == Some(true) {
            Authorization::Authorized
        } else if self.allows(key) {
            Authorization::Authorized
        } else {
            Authorization::Denied
        }
    }

    /// The decision on the key of a request: denied where there is none,
    /// else admitted where it follows the reserved pattern or the allow-list
    /// holds it.
    pub fn authorize(&self, key: Option<&str>) -> (r: Authorization)
        ensures
            (r == Authorization::Authorized) == (key is Some && key_admitted(
                regex_verdict(DOWNSTREAM_KEY_PATTERN@, key->0@),
                key->0@,
                self.allowed(),
            )),
    {
        match key {
            None => Authorization::Denied,
            Some(k) => {
                let verdict = regex_match(DOWNSTREAM_KEY_PATTERN, k);
                self.decide(k, verdict)
            },
        }
    }
}

/// The tag reported for a key check: the key itself, or `"invalid-key"`
/// where the request carries none.
pub open spec fn key_tag(key: Option<Seq<char>>) -> Seq<char> {
    match key {
        Some(k) => k,
        None => "invalid-key"@,
    }
}

/// What serde_json makes of an allow-list file: `None` where the text is not
/// JSON; else `Some(items)`, where `items` is `None` unless the document is an
/// array, and otherwise gives for each element its text where it is a string.
pub uninterp spec fn json_string_items(text: Seq<char>) -> Option<Option<Seq<Option<Seq<char>>>>>;

/// The texts of a sequence of optional strings.
pub open spec fn texts(v: Seq<Option<String>>) -> Seq<Option<Seq<char>>> {
    v.map_values(|o: Option<String>| match o {
        Some(s) => Some(s@),
        None => None,
    })
}

/// Relies on `serde_json::from_str` into a `serde_json::Value`, then
/// `Value::as_array` and `Value::as_str` on the elements: the outcome
/// depends on the text alone.
#[verifier::external_body]
fn json_items(text: &str) -> (r: Option<Option<Vec<Option<String>>>>)
    ensures
        match (r, json_string_items(text@)) {
            (None, None) => true,
            (Some(None), Some(None)) => true,
            (Some(Some(v)), Some(Some(s))) => texts(v@) == s,
            _ => false,
        },
{
    serde_json::from_str::<serde_json::Value>(text).ok().map(
        |v| v.as_array().map(|a| a.iter().map(|i| i.as_str().map(String::from)).collect()),
    )
}

/// The strings among the items, in order.
pub open spec fn strings_of(items: Seq<Option<Seq<char>>>) -> Seq<Seq<char>>
    decreases items.len(),
{
    if items.len() == 0 {
        Seq::empty()
    } else {
        let init = strings_of(items.drop_last());
        match items.last() {
            Some(s) => init.push(s),
            None => init,
        }
    }
}

/// The keys that an allow-list file gives: the string elements of its array,
/// in order; none where the document is not an array.
pub open spec fn keys_of(items: Option<Seq<Option<Seq<char>>>>) -> Seq<Seq<char>> {
    match items {
        Some(s) => strings_of(s),
        None => Seq::empty(),
    }
}

/// The message of the error for an allow-list file that is not JSON.
pub open spec fn unparsable_keys_message() -> Seq<char> {
    "Error parsing api keys file"@
}

/// The keys among the elements of an allow-list document: the strings of
/// its array, in order; none where the document is not an array (`None`).
pub fn keys_from_items(items: Option<Vec<Option<String>>>) -> (r: Vec<String>)
    ensures
        r@.len() == keys_of(
            match items {
                Some(v) => Some(texts(v@)),
                None => None,
            },
        ).len(),
        forall|i: int|
            0 <= i < r@.len() ==> #[trigger] r@[i]@ == keys_of(
                match items {
                    Some(v) => Some(texts(v@)),
                    None => None,
                },
            )[i],
{
    match items {
        None => Vec::new(),
        Some(items) => {
            let ghost all = texts(items@);
            let mut keys: Vec<String> = Vec::new();
            let mut i: usize = 0;
            while i < items.len()
                invariant
                    i <= items@.len(),
                    all == texts(items@),
                    keys@.len() == strings_of(all.subrange(0, i as int)).len(),
                    forall|k: int|
                        0 <= k < keys@.len() ==> #[trigger] keys@[k]@ == strings_of(
                            all.subrange(0, i as int),
                        )[k],
                decreases items@.len() - i,
            {
                assert(all.subrange(0, i + 1).drop_last() =~= all.subrange(0, i as int));
                match &items[i] {
                    Some(s) => {
                        keys.push(s.clone());
                    },
                    None => {},
                }
                i = i + 1;
            }
            assert(all.subrange(0, items@.len() as int) =~= all);
            keys
        },
    }
}

/// The keys of an allow-list file: the strings of its JSON array. Elements
/// that are not strings are skipped, and a document that is not an array
/// gives no key; text that is not JSON is an error.
pub fn parse_api_keys(text: &str) -> (r: Result<Vec<String>, ClassifyError>)
    ensures
        match (r, json_string_items(text@)) {
            (Ok(keys), Some(items)) => keys@.len() == keys_of(items).len() && forall|i: int|
                0 <= i < keys@.len() ==> #[trigger] keys@[i]@ == keys_of(items)[i],
            (Err(e), None) => e.view_message() == unparsable_keys_message(),
            _ => false,
        },
{
    match json_items(text) {
        None => Err(ClassifyError::new("Error parsing api keys file")),
        Some(items) => Ok(keys_from_items(items)),
    }
}

/// A key that does not follow the reserved pattern is admitted exactly when
/// the allow-list holds it.
pub proof fn lemma_allow_list_decides_other_keys(verdict: Option<bool>, key: Seq<char>, allowed: Set<Seq<char>>)
    requires
        verdict != Some(true),
    ensures
        key_admitted(verdict, key, allowed) == allowed.contains(key),
{
}

/// A key that follows the reserved pattern is admitted whatever the
/// allow-list holds, an empty one included.
pub proof fn lemma_downstream_keys_need_no_listing(key: Seq<char>, allowed: Set<Seq<char>>)
    requires
        is_downstream_key(key),
    ensures
        key_admitted(regex_verdict(DOWNSTREAM_KEY_PATTERN@, key), key, allowed),
        key_admitted(regex_verdict(DOWNSTREAM_KEY_PATTERN@, key), key, Set::empty()),
{
}

} // verus!
