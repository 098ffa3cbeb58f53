//! The model of a collection definition (`nucleus/collections/*.toml`).

use vstd::prelude::*;
use std::collections::HashMap;
use crate::text::chars_of;

verus! {

/// A collection: its metadata and its fields, keyed by field name.
#[derive(Clone, Debug)]
pub struct Collection {
    pub collection: CollectionMeta,
    pub fields: HashMap<String, Field>,
}

/// The `[collection]` table.
#[derive(Clone, Debug)]
pub struct CollectionMeta {
    pub label: String,
    pub description: Option<String>,
}

/// One `[field.<name>]` table; `required` and `editable` default to `false`.
#[derive(Clone, Debug)]
pub struct Field {
    pub label: String,
    pub field_type: FieldType,
    pub required: bool,
    pub editable: bool,
    pub default: Option<String>,
    pub from: Option<String>,
}

/// The kinds of field a collection can hold.
#[derive(Clone, Copy, Debug, PartialEq, Eq, Structural)]
pub enum FieldType {
    Text,
    Richtext,
    Slug,
    Date,
    Datetime,
    Number,
    Boolean,
    Select,
    Tags,
    Image,
    Relation,
    User,
}


/// Index of the last `.` in `name`, or -1 when there is none.
pub open spec fn last_dot(name: Seq<char>) -> int
    decreases name.len(),
{
    if name.len() == 0 {
        -1
    } else if name.last() == '.' {
        name.len() - 1
    } else {
        last_dot(name.drop_last())
    }
}

/// The extension of a file name, as `Path::extension` reads it: what follows
/// the last `.`, unless there is no `.` or the only one starts the name.
pub open spec fn extension_of(name: Seq<char>) -> Option<Seq<char>> {
    if last_dot(name) > 0 {
        Some(name.skip(last_dot(name) + 1))
    } else {
        None
    }
}

/// Whether a directory entry named `name` is a collection definition: its
/// extension is `toml`.
pub fn is_collection_file(name: &str) -> (b: bool)
    ensures
        b == (extension_of(name@) == Some("toml"@)),
{
    let v = chars_of(name);
    let mut i = v.len();
    assert(v@.take(v@.len() as int) =~= v@);
    while i > 0 && v[i - 1] != '.'
        invariant
            i <= v@.len(),
            last_dot(v@) == last_dot(v@.take(i as int)),
        decreases i,
    {
        assert(v@.take(i as int).drop_last() =~= v@.take(i - 1));
        i = i - 1;
    }
    if i <= 1 {
        assert(i == 1 ==> v@.take(1).last() == '.');
        assert(i == 0 ==> v@.take(0) =~= Seq::<char>::empty());
        return false;
    }
    assert(v@.take(i as int).last() == '.');
    let ghost ext = v@.skip(i as int);
    proof {
        reveal_strlit("toml");
    }
    let n = v.len();
    if n - i == 4 && v[i] == 't' && v[i + 1] == 'o' && v[i + 2] == 'm' && v[i + 3] == 'l' {
        assert(ext =~= "toml"@);
        true
    } else {
        assert(ext != "toml"@) by {
            if ext == "toml"@ {
                assert(ext.len() == 4);
                assert(ext[0] == 't' && ext[1] == 'o' && ext[2] == 'm' && ext[3] == 'l');
            }
        }
        false
    }
}

} // verus!
