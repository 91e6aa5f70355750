//! Where the catalog is kept, and how its schema is brought up to date.

use vstd::prelude::*;
use crate::path::{expand, is_tilde_expansion, join_path, joined};
use crate::text::{concat, from_chars, texts, to_chars};

verus! {

/// The directory of the catalog.
pub open spec fn db_directory() -> Seq<char> {
    "~/.local/share/flowd/"@
}

/// The file name of the catalog.
pub open spec fn db_name() -> Seq<char> {
    "downloads.db"@
}

/// The path of the catalog: its file name under its directory, with the
/// leading `~` expanded.
pub fn get_db_path() -> (r: String)
    ensures
        is_tilde_expansion(joined(db_directory(), db_name()), r@),
{
    let path = join_path("~/.local/share/flowd/", "downloads.db");
    expand(path.as_str())
}

/// The scripts after the first `applied` ones, one after the other.
pub open spec fn scripts_after(scripts: Seq<Seq<char>>, applied: int) -> Seq<char>
    decreases scripts.len() - applied,
{
    if applied < 0 || applied >= scripts.len() {
        Seq::<char>::empty()
    } else {
        scripts[applied] + scripts_after(scripts, applied + 1)
    }
}

/// The scripts of the versions `from`, `from + 1`, ... one after the other,
/// where `scripts` holds the script of version 1 first. Empty where `from` is
/// 0 or beyond the last script.
pub open spec fn migrations_from(scripts: Seq<Seq<char>>, from: int) -> Seq<char> {
    if from < 1 {
        Seq::<char>::empty()
    } else {
        scripts_after(scripts, from - 1)
    }
}

/// The scripts with the indices `from` up to, not including, `to`, one after
/// the other.
spec fn scripts_between(scripts: Seq<Seq<char>>, from: int, to: int) -> Seq<char>
    decreases to - from,
{
    if from < 0 || to > scripts.len() || from >= to {
        Seq::<char>::empty()
    } else {
        scripts_between(scripts, from, to - 1) + scripts[to - 1]
    }
}

/// All scripts after `from` are those up to `to` followed by those after `to`.
proof fn lemma_scripts_split(scripts: Seq<Seq<char>>, from: int, to: int)
    requires
        0 <= from <= to <= scripts.len(),
    ensures
        scripts_after(scripts, from) == scripts_between(scripts, from, to) + scripts_after(
            scripts,
            to,
        ),
    decreases to - from,
{
    if from == to {
        assert(scripts_between(scripts, from, to) + scripts_after(scripts, to) =~= scripts_after(
            scripts,
            to,
        ));
    } else {
        lemma_scripts_split(scripts, from, to - 1);
        assert(scripts_after(scripts, to - 1) == scripts[to - 1] + scripts_after(scripts, to));
        assert(scripts_between(scripts, from, to - 1) + (scripts[to - 1] + scripts_after(
            scripts,
            to,
        )) =~= (scripts_between(scripts, from, to - 1) + scripts[to - 1]) + scripts_after(
            scripts,
            to,
        ));
    }
}

/// The scripts after the first `applied` ones, as one batch.
fn pending_scripts(applied: usize, scripts: &Vec<String>) -> (r: String)
    ensures
        r@ == scripts_after(texts(scripts@), applied as int),
{
    let mut batch: Vec<char> = Vec::new();
    if applied >= scripts.len() {
        return from_chars(&batch);
    }
    let mut k: usize = applied;
    while k < scripts.len()
        invariant
            applied <= k <= scripts.len(),
            batch@ == scripts_between(texts(scripts@), applied as int, k as int),
        decreases scripts.len() - k,
    {
        let script = to_chars(scripts[k].as_str());
        assert(script@ == texts(scripts@)[k as int]);
        batch = concat(&batch, &script);
        k = k + 1;
    }
    proof {
        lemma_scripts_split(texts(scripts@), applied as int, k as int);
        assert(batch@ + scripts_after(texts(scripts@), k as int) =~= batch@);
    }
    from_chars(&batch)
}

/// The migration scripts from version `from_version` on, in ascending order
/// and as one batch. `scripts` holds the shipped scripts, that of version 1
/// first.
pub fn get_migrations(from_version: u16, scripts: &Vec<String>) -> (r: String)
    ensures
        r@ == migrations_from(texts(scripts@), from_version as int),
{
    if from_version == 0 {
        String::new()
    } else {
        pending_scripts((from_version - 1) as usize, scripts)
    }
}

/// The first version whose script is still to be applied: 1 for a catalog
/// that was just created, else the one after the stored version.
pub open spec fn next_version(init: bool, stored_version: u16) -> int {
    if init {
        1
    } else {
        stored_version + 1
    }
}

/// The batch of scripts that brings the schema up to date. `init` says that
/// the catalog was just created; otherwise `stored_version` is the version
/// that it has.
pub fn verify_and_update_schema(init: bool, stored_version: u16, scripts: &Vec<String>) -> (r: String)
    ensures
        r@ == migrations_from(texts(scripts@), next_version(init, stored_version)),
{
    if init {
        pending_scripts(0, scripts)
    } else {
        pending_scripts(stored_version as usize, scripts)
    }
}

/// What is to be done when the catalog is opened.
#[derive(Debug)]
pub struct SchemaPlan {
    /// The catalog is not on disk yet: its directory and file are to be created.
    pub create: bool,
    /// The scripts to run, as one batch.
    pub batch: String,
}

/// What is to be done when the catalog is opened: a catalog that is not on
/// disk counts as one of version 0, is to be created, and gets every script;
/// one that is there gets the scripts after its stored version.
pub fn init(db_exists: bool, stored_version: u16, scripts: &Vec<String>) -> (r: SchemaPlan)
    ensures
        r.create == !db_exists,
        r.batch@ == migrations_from(texts(scripts@), next_version(!db_exists, stored_version)),
{
    SchemaPlan {
        create: !db_exists,
        batch: verify_and_update_schema(!db_exists, stored_version, scripts),
    }
}

} // verus!
