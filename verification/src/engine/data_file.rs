//! Where new data files go.

use vstd::prelude::*;
use vstd::string::*;

use crate::text::{dec_u64, joined};
use crate::types::level::Level;

verus! {

/// Whether `s` has the form of a random UUID: 32 lower-case hexadecimal
/// digits in groups of 8, 4, 4, 4 and 12, with version digit 4 and a variant
/// digit from 8 to b.
pub open spec fn is_random_uuid(s: Seq<char>) -> bool {
    &&& s.len() == 36
    &&& s[14] == '4'
    &&& '8' <= s[19] <= '9' || 'a' <= s[19] <= 'b'
    &&& forall|i: int|
        0 <= i < 36 ==> if i == 8 || i == 13 || i == 18 || i == 23 {
            #[trigger] s[i] == '-'
        } else {
            '0' <= s[i] <= '9' || 'a' <= s[i] <= 'f'
        }
}

/// Calls `uuid::Uuid::new_v4` and prints it: a random UUID in its hyphenated
/// form. Which one is chance, so nothing more is claimed.
#[verifier::external_body]
fn random_uuid() -> (r: String)
    ensures
        is_random_uuid(r@),
{
    uuid::Uuid::new_v4().to_string()
}

/// The manifest path of a data file: `data/L{level}/{id}.parquet`.
pub open spec fn data_path(level: Level, file_id: Seq<char>) -> Seq<char> {
    "data/L"@ + crate::text::dec_nat(level.0 as nat) + "/"@ + file_id + ".parquet"@
}

/// The manifest path of a data file: `data/L{level}/{id}.parquet`.
pub fn relative_data_path(level: Level, file_id: &str) -> (r: String)
    ensures
        r@ == data_path(level, file_id@),
{
    let mut r = joined("data/L", dec_u64(level.0 as u64).as_str());
    r.append("/");
    r.append(file_id);
    r.append(".parquet");
    r
}

/// A fresh identifier for a data file.
pub fn new_file_id() -> (r: String)
    ensures
        is_random_uuid(r@),
{
    random_uuid()
}

/// The identifier of a table: the one that its manifest records, or a fresh
/// one for a manifest that records none.
pub fn table_uuid_or_fresh(recorded: String) -> (r: String)
    ensures
        recorded@.len() > 0 ==> r@ == recorded@,
        recorded@.len() == 0 ==> is_random_uuid(r@),
{
    if recorded.as_str().is_empty() {
        random_uuid()
    } else {
        recorded
    }
}

/// A data file lies in the directory of its level, under its identifier.
pub proof fn law_data_file_lies_in_its_level(level: Level, file_id: Seq<char>)
    requires
        file_id.len() > 0,
        forall|i: int| 0 <= i < file_id.len() ==> #[trigger] file_id[i] != '/',
    ensures
        crate::paths::parent_of(data_path(level, file_id)) == Some("data/"@ + level.name()),
        crate::paths::stem_of(data_path(level, file_id)) == Some(file_id),
        crate::paths::last_component(data_path(level, file_id)) == file_id + ".parquet"@,
{
    reveal_strlit("data/L");
    reveal_strlit("data/");
    reveal_strlit("L");
    reveal_strlit("/");
    reveal_strlit(".parquet");
    reveal_strlit("parquet");
    let number = crate::text::dec_nat(level.0 as nat);
    let dir = "data/"@ + level.name();
    let name = file_id + ".parquet"@;
    let p = data_path(level, file_id);
    crate::text::lemma_dec_nat_digits(level.0 as nat);
    assert(crate::text::is_digit(number[number.len() - 1]));
    assert(dir.last() == number[number.len() - 1]);
    assert("/"@ =~= seq!['/']);
    assert(".parquet"@ =~= seq!['.'] + "parquet"@);
    assert(p =~= dir + seq!['/'] + name);
    assert(p =~= dir + seq!['/'] + file_id + seq!['.'] + "parquet"@);
    assert forall|i: int| 0 <= i < name.len() implies #[trigger] name[i] != '/' by {
        if i < file_id.len() {
            assert(name[i] == file_id[i]);
        } else {
            assert(name[i] == ".parquet"@[i - file_id.len()]);
        }
    }
    assert(name.len() > 1);
    crate::paths::law_parent_and_name_of_a_file(dir, name);
    crate::paths::law_stem_and_extension(dir, file_id, "parquet"@, "parquet"@);
}

} // verus!
