use vstd::prelude::*;
use crate::text;

verus! {

/// One named configuration value.
#[derive(Clone, Debug)]
pub struct ConfigField {
    pub key: String,
    pub value: String,
}

/// One handler's configuration section.
#[derive(Clone, Debug)]
pub struct ExtractorSection {
    pub name: String,
    pub fields: Vec<ConfigField>,
}

/// The validated process configuration the handler factories read: one
/// section per enabled handler, and a table of named user-agent strings.
#[derive(Clone, Debug)]
pub struct Config {
    pub extractors: Vec<ExtractorSection>,
    pub user_agents: Vec<ConfigField>,
}

/// A startup-time configuration error; fatal to enabling a handler, not
/// to the process.
#[derive(Clone, Debug)]
pub enum ConfigError {
    MissingExtractorField(String),
    InvalidExtractorField(String),
    InvalidUserAgent(String),
}

/// The value of the first field with the given key.
pub open spec fn field_lookup(fields: Seq<ConfigField>, key: Seq<char>) -> Option<Seq<char>>
    decreases fields.len(),
{
    if fields.len() == 0 {
        None
    } else if fields[0].key@ == key {
        Some(fields[0].value@)
    } else {
        field_lookup(fields.drop_first(), key)
    }
}

/// The fields of the first section with the given name.
pub open spec fn section_lookup(sections: Seq<ExtractorSection>, name: Seq<char>) -> Option<
    Seq<ConfigField>,
>
    decreases sections.len(),
{
    if sections.len() == 0 {
        None
    } else if sections[0].name@ == name {
        Some(sections[0].fields@)
    } else {
        section_lookup(sections.drop_first(), name)
    }
}

/// Looks a named value up, returning a copy of the first match.
pub fn get_field(fields: &Vec<ConfigField>, key: &str) -> (r: Option<String>)
    ensures
        match r {
            Some(v) => field_lookup(fields@, key@) == Some(v@),
            None => field_lookup(fields@, key@) is None,
        },
{
    let n = fields.len();
    let mut i: usize = 0;
    proof {
        assert(fields@.subrange(0, n as int) =~= fields@);
    }
    while i < n
        invariant
            i <= n,
            n == fields@.len(),
            field_lookup(fields@.subrange(i as int, n as int), key@) == field_lookup(
                fields@,
                key@,
            ),
        decreases n - i,
    {
        proof {
            assert(fields@.subrange(i as int, n as int)[0] == fields@[i as int]);
            assert(fields@.subrange(i as int, n as int).drop_first() =~= fields@.subrange(
                i + 1,
                n as int,
            ));
        }
        if text::str_eq(fields[i].key.as_str(), key) {
            return Some(fields[i].value.clone());
        }
        i += 1;
    }
    proof {
        assert(fields@.subrange(n as int, n as int) =~= Seq::<ConfigField>::empty());
    }
    None
}

/// Finds the section with the given name.
pub fn get_section<'a>(sections: &'a Vec<ExtractorSection>, name: &str) -> (r: Option<
    &'a Vec<ConfigField>,
>)
    ensures
        match r {
            Some(fields) => section_lookup(sections@, name@) == Some(fields@),
            None => section_lookup(sections@, name@) is None,
        },
{
    let n = sections.len();
    let mut i: usize = 0;
    proof {
        assert(sections@.subrange(0, n as int) =~= sections@);
    }
    while i < n
        invariant
            i <= n,
            n == sections@.len(),
            section_lookup(sections@.subrange(i as int, n as int), name@) == section_lookup(
                sections@,
                name@,
            ),
        decreases n - i,
    {
        proof {
            assert(sections@.subrange(i as int, n as int)[0] == sections@[i as int]);
            assert(sections@.subrange(i as int, n as int).drop_first() =~= sections@.subrange(
                i + 1,
                n as int,
            ));
        }
        if text::str_eq(sections[i].name.as_str(), name) {
            return Some(&sections[i].fields);
        }
        i += 1;
    }
    proof {
        assert(sections@.subrange(n as int, n as int) =~= Seq::<ExtractorSection>::empty());
    }
    None
}

/// A character whose UTF-8 bytes may stand in an outbound header value:
/// anything but the control characters (every character from space on,
/// except delete, plus the horizontal tab).
pub open spec fn header_value_char(c: char) -> bool {
    c == '\t' || (32 <= c as int && c as int != 127)
}

pub open spec fn header_value_ok(s: Seq<char>) -> bool {
    forall|i: int| 0 <= i < s.len() ==> header_value_char(#[trigger] s[i])
}

/// Checks that a string may stand in an outbound header value.
pub fn check_header_value(s: &str) -> (r: bool)
    ensures
        r == header_value_ok(s@),
{
    let n = vstd::string::StrSliceExecFns::unicode_len(s);
    let mut i: usize = 0;
    while i < n
        invariant
            i <= n,
            n == s@.len(),
            forall|j: int| 0 <= j < i ==> header_value_char(#[trigger] s@[j]),
        decreases n - i,
    {
        let c = vstd::string::StrSliceExecFns::get_char(s, i);
        let ok = c == '\t' || (c >= ' ' && c != (127u8 as char));
        if !ok {
            return false;
        }
        i += 1;
    }
    true
}

} // verus!
