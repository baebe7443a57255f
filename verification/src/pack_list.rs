//! The bundle manifest scaffold: pack-level metadata plus an ordered,
//! append-only list of records. Setters silently ignore blank input, keeping
//! the prior value.

use vstd::prelude::*;
use vstd::string::StringExecFns;
use crate::text::{is_blank, blank_str, dec_digits, decimal_string};

verus! {

/// Bundle metadata and its ordered record list. Records only accumulate;
/// their insertion order is preserved.
#[derive(Debug)]
pub struct PackList<T> {
    pub pack_name: String,
    pub schema: String,
    pub version: String,
    pub id: String,
    pub description: String,
    pub paintings: Vec<T>,
}

/// Accept `input` only if it is not blank: `None` for empty or
/// whitespace-only input, otherwise the input unchanged (untrimmed).
pub fn check_no_input(input: &str) -> (r: Option<String>)
    ensures
        match r {
            Option::None => is_blank(input@),
            Option::Some(s) => !is_blank(input@) && s@ == input@,
        },
{
    if blank_str(input) {
        None
    } else {
        Some(String::from_str(input))
    }
}

impl<T> PackList<T> {
    /// A pack with the given metadata, the fixed schema tag, and no records.
    pub fn new(pack_name: String, version: String, id: String, description: String) -> (r: Self)
        ensures
            r.pack_name == pack_name,
            r.schema@ == "http://json-schema.org/draft-07/schema#"@,
            r.version == version,
            r.id == id,
            r.description == description,
            r.paintings@ == Seq::<T>::empty(),
    {
        PackList {
            pack_name,
            schema: String::from_str("http://json-schema.org/draft-07/schema#"),
            version,
            id,
            description,
            paintings: Vec::new(),
        }
    }

    /// Set the pack name, unless the input is blank, in which case the prior
    /// value is kept and nothing else changes.
    pub fn set_pack_name(&mut self, pack_name: &str)
        ensures
            is_blank(pack_name@) ==> *final(self) == *old(self),
            !is_blank(pack_name@) ==> *final(self) == (PackList {
                pack_name: final(self).pack_name,
                ..*old(self)
            }) && final(self).pack_name@ == pack_name@,
    {
        match check_no_input(pack_name) {
            Some(valid_pack_name) => self.pack_name = valid_pack_name,
            None => {},
        }
    }

    /// Set the schema tag, unless the input is blank. Kept for completeness;
    /// ordinary exports never change the schema.
    pub fn _set_schema(&mut self, schema: &str)
        ensures
            is_blank(schema@) ==> *final(self) == *old(self),
            !is_blank(schema@) ==> *final(self) == (PackList {
                schema: final(self).schema,
                ..*old(self)
            }) && final(self).schema@ == schema@,
    {
        match check_no_input(schema) {
            Some(valid_schema) => self.schema = valid_schema,
            None => {},
        }
    }

    /// Set the version, unless the input is blank.
    pub fn set_version(&mut self, version: &str)
        ensures
            is_blank(version@) ==> *final(self) == *old(self),
            !is_blank(version@) ==> *final(self) == (PackList {
                version: final(self).version,
                ..*old(self)
            }) && final(self).version@ == version@,
    {
        match check_no_input(version) {
            Some(valid_version) => self.version = valid_version,
            None => {},
        }
    }

    /// Set the identifier, unless the input is blank.
    pub fn set_id(&mut self, id: &str)
        ensures
            is_blank(id@) ==> *final(self) == *old(self),
            !is_blank(id@) ==> *final(self) == (PackList { id: final(self).id, ..*old(self) })
                && final(self).id@ == id@,
    {
        match check_no_input(id) {
            Some(valid_id) => self.id = valid_id,
            None => {},
        }
    }

    /// Set the description, unless the input is blank.
    pub fn set_description(&mut self, description: &str)
        ensures
            is_blank(description@) ==> *final(self) == *old(self),
            !is_blank(description@) ==> *final(self) == (PackList {
                description: final(self).description,
                ..*old(self)
            }) && final(self).description@ == description@,
    {
        match check_no_input(description) {
            Some(valid_description) => self.description = valid_description,
            None => {},
        }
    }

    /// Append one record; everything else is untouched.
    pub fn add_painting(&mut self, painting: T)
        ensures
            *final(self) == (PackList { paintings: final(self).paintings, ..*old(self) }),
            final(self).paintings@ == old(self).paintings@.push(painting),
    {
        self.paintings.push(painting);
    }

    /// How many records have been added.
    pub fn painting_count(&self) -> (r: usize)
        ensures
            r == self.paintings@.len(),
    {
        self.paintings.len()
    }

    /// Split the pack into its metadata (with an empty record list of a
    /// possibly different record type) and its original records.
    pub fn separate_paintings<U>(self) -> (r: (PackList<U>, Vec<T>))
        ensures
            r.0.pack_name == self.pack_name,
            r.0.schema == self.schema,
            r.0.version == self.version,
            r.0.id == self.id,
            r.0.description == self.description,
            r.0.paintings@ == Seq::<U>::empty(),
            r.1@ == self.paintings@,
    {
        let PackList { pack_name, schema, version, id, description, paintings } = self;
        let new_list = PackList {
            pack_name,
            schema,
            version,
            id,
            description,
            paintings: Vec::new(),
        };
        (new_list, paintings)
    }
}

/// Relies on rand's thread-local generator and RngExt::random_range: a
/// uniformly random value within the given non-empty range; nothing more is
/// assumed of which value comes back.
#[verifier::external_body]
fn random_pack_id() -> (r: u64)
    ensures
        56000 <= r <= 128000,
{
    rand::RngExt::random_range(&mut rand::rng(), 56000u64..=128000u64)
}

impl<T> Default for PackList<T> {
    /// The fallback scaffold: fixed name, schema, version and description,
    /// and a randomly chosen numeric-string identifier in a fixed range.
    fn default() -> (d: Self)
        ensures
            d.pack_name@ == "Default"@,
            d.schema@ == "http://json-schema.org/draft-07/schema#"@,
            d.version@ == "1.0.0"@,
            d.description@ == "A list of paintings in the gallery"@,
            d.paintings@ == Seq::<T>::empty(),
            exists|n: int| 56000 <= n <= 128000 && d.id@ == #[trigger] dec_digits(n),
    {
        let n = random_pack_id();
        let random_id = decimal_string(n as u32);
        let d = PackList {
            pack_name: String::from_str("Default"),
            schema: String::from_str("http://json-schema.org/draft-07/schema#"),
            version: String::from_str("1.0.0"),
            id: random_id,
            description: String::from_str("A list of paintings in the gallery"),
            paintings: Vec::new(),
        };
        proof {
            assert(56000 <= n as int <= 128000 && d.id@ == dec_digits(n as int));
        }
        d
    }
}

} // verus!
