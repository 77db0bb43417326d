//! The decisions of the command-line commands: which importer a format names,
//! which collection or environment an id picks, and how imported environments
//! join the workspace's.
use vstd::prelude::*;
use crate::collection::Collection;
use crate::env::Environment;
use crate::ids::{id_text, uuid_text};
use crate::text::{to_owned_string, push_str, str_equal, lowercase, to_lowercase};

verus! {

/// The importers a collection can be read with.
#[derive(Clone, Copy, Debug, PartialEq, Eq, Structural)]
pub enum ImportFormat {
    Json,
    Postman,
    OpenApi,
}

/// The importer a lower-case format name picks.
pub open spec fn format_named(f: Seq<char>) -> Option<ImportFormat> {
    if f == "json"@ {
        Some(ImportFormat::Json)
    } else if f == "postman"@ {
        Some(ImportFormat::Postman)
    } else if f == "openapi"@ || f == "swagger"@ {
        Some(ImportFormat::OpenApi)
    } else {
        None
    }
}

/// The importer a format name picks, in any case; other names are refused with
/// the list of the supported ones.
pub fn import_format(format: &str) -> (r: Result<ImportFormat, String>)
    ensures
        match format_named(lowercase(format@)) {
            Some(f) => r == Ok::<ImportFormat, String>(f),
            None => r matches Err(e) && e@ == "Unsupported format: "@ + format@ + ". Supported: json, postman, openapi"@,
        },
{
    let l = to_lowercase(format);
    if str_equal(l.as_str(), "json") {
        Ok(ImportFormat::Json)
    } else if str_equal(l.as_str(), "postman") {
        Ok(ImportFormat::Postman)
    } else if str_equal(l.as_str(), "openapi") || str_equal(l.as_str(), "swagger") {
        Ok(ImportFormat::OpenApi)
    } else {
        let mut e = to_owned_string("Unsupported format: ");
        push_str(&mut e, format);
        push_str(&mut e, ". Supported: json, postman, openapi");
        Err(e)
    }
}

/// The first collection with the id.
pub fn find_collection(collections: &Vec<Collection>, id: u128) -> (r: Option<&Collection>)
    ensures
        r is None <==> forall|i: int| 0 <= i < collections@.len() ==> (#[trigger] collections@[i]).id != id,
        r matches Some(c) ==> exists|i: int|
            0 <= i < collections@.len() && collections@[i] == *c && c.id == id && forall|j: int|
                0 <= j < i ==> (#[trigger] collections@[j]).id != id,
{
    let mut i: usize = 0;
    while i < collections.len()
        invariant
            0 <= i <= collections@.len(),
            forall|j: int| 0 <= j < i ==> (#[trigger] collections@[j]).id != id,
        decreases collections@.len() - i,
    {
        if collections[i].id == id {
            return Some(&collections[i]);
        }
        i = i + 1;
    }
    None
}

/// The first environment with the id.
pub fn find_environment(environments: &Vec<Environment>, id: u128) -> (r: Option<&Environment>)
    ensures
        r is None <==> forall|i: int| 0 <= i < environments@.len() ==> (#[trigger] environments@[i]).id != id,
        r matches Some(e) ==> exists|i: int|
            0 <= i < environments@.len() && environments@[i] == *e && e.id == id && forall|j: int|
                0 <= j < i ==> (#[trigger] environments@[j]).id != id,
{
    let mut i: usize = 0;
    while i < environments.len()
        invariant
            0 <= i <= environments@.len(),
            forall|j: int| 0 <= j < i ==> (#[trigger] environments@[j]).id != id,
        decreases environments@.len() - i,
    {
        if environments[i].id == id {
            return Some(&environments[i]);
        }
        i = i + 1;
    }
    None
}

/// Whether some environment has the id.
pub open spec fn has_env_id(envs: Seq<Environment>, id: u128) -> bool {
    exists|i: int| 0 <= i < envs.len() && (#[trigger] envs[i]).id == id
}

/// Adds an imported environment to the workspace's; one whose id is already there
/// is refused.
pub fn add_imported_environment(environments: &mut Vec<Environment>, environment: Environment) -> (r: Result<(), String>)
    ensures
        has_env_id(old(environments)@, environment.id) ==> (r matches Err(e) && e@ == "Environment with ID "@
            + uuid_text(environment.id) + " already exists"@ && final(environments)@ == old(environments)@),
        !has_env_id(old(environments)@, environment.id) ==> (r is Ok && final(environments)@ == old(
            environments,
        )@.push(environment)),
{
    if find_environment(environments, environment.id).is_some() {
        let mut e = to_owned_string("Environment with ID ");
        let t = id_text(environment.id);
        push_str(&mut e, t.as_str());
        push_str(&mut e, " already exists");
        return Err(e);
    }
    environments.push(environment);
    Ok(())
}

/// The environments after an import: the imported ones, in order, join the
/// existing ones unless one with the same id is already there (an earlier imported
/// one included).
pub open spec fn merged_environments(existing: Seq<Environment>, imported: Seq<Environment>) -> Seq<Environment>
    decreases imported.len(),
{
    if imported.len() == 0 {
        existing
    } else {
        let acc = merged_environments(existing, imported.drop_last());
        if has_env_id(acc, imported.last().id) {
            acc
        } else {
            acc.push(imported.last())
        }
    }
}

/// Merges imported environments into the workspace's.
pub fn merge_environments(existing: Vec<Environment>, imported: Vec<Environment>) -> (r: Vec<Environment>)
    ensures
        r@ == merged_environments(existing@, imported@),
{
    let mut all = existing;
    let ghost start = all@;
    let ghost imp = imported@;
    let mut rest = imported;
    let mut pending: Vec<Environment> = Vec::new();
    while rest.len() > 0
        invariant
            pending@ == imp.skip(rest@.len() as int).reverse(),
            rest@ == imp.take(rest@.len() as int),
            rest@.len() <= imp.len(),
        decreases rest@.len(),
    {
        let e = rest.pop().unwrap();
        proof {
            assert(rest@ =~= imp.take(rest@.len() as int));
            assert(e == imp[rest@.len() as int]);
        }
        pending.push(e);
        assert(pending@ =~= imp.skip(rest@.len() as int).reverse());
    }
    assert(imp.skip(0) =~= imp);
    let ghost mut k: int = 0;
    assert(imp.take(0) =~= Seq::<Environment>::empty());
    while pending.len() > 0
        invariant
            0 <= k <= imp.len(),
            k + pending@.len() == imp.len(),
            pending@ == imp.skip(k).reverse(),
            all@ == merged_environments(start, imp.take(k)),
        decreases pending@.len(),
    {
        let e = pending.pop().unwrap();
        proof {
            assert(pending@ =~= imp.skip(k + 1).reverse());
            assert(e == imp[k]);
            assert(imp.take(k + 1).drop_last() =~= imp.take(k));
            assert(imp.take(k + 1).last() == e);
        }
        if find_environment(&all, e.id).is_none() {
            proof {
                assert(!has_env_id(all@, e.id));
            }
            all.push(e);
        } else {
            proof {
                assert(has_env_id(all@, e.id));
            }
        }
        proof {
            k = k + 1;
        }
    }
    assert(imp.take(imp.len() as int) =~= imp);
    all
}

/// Whether no two environments share an id.
pub open spec fn distinct_env_ids(envs: Seq<Environment>) -> bool {
    forall|i: int, j: int| 0 <= i < j < envs.len() ==> (#[trigger] envs[i]).id != (#[trigger] envs[j]).id
}

/// Merging imported environments keeps the workspace's own ones first and
/// unchanged, holds every imported id afterwards, and never makes two
/// environments share an id.
pub proof fn law_merge_keeps_ids_distinct(existing: Seq<Environment>, imported: Seq<Environment>)
    requires
        distinct_env_ids(existing),
    ensures
        distinct_env_ids(merged_environments(existing, imported)),
        merged_environments(existing, imported).len() >= existing.len(),
        merged_environments(existing, imported).take(existing.len() as int) == existing,
        forall|k: int| 0 <= k < imported.len() ==> has_env_id(merged_environments(existing, imported), #[trigger] imported[k].id),
    decreases imported.len(),
{
    if imported.len() > 0 {
        law_merge_keeps_ids_distinct(existing, imported.drop_last());
        let acc = merged_environments(existing, imported.drop_last());
        let e = imported.last();
        if !has_env_id(acc, e.id) {
            let m = acc.push(e);
            assert(m.take(existing.len() as int) =~= acc.take(existing.len() as int));
            assert forall|k: int| 0 <= k < imported.len() implies has_env_id(m, #[trigger] imported[k].id) by {
                if k < imported.len() - 1 {
                    assert(imported.drop_last()[k] == imported[k]);
                    let w = choose|w: int| 0 <= w < acc.len() && (#[trigger] acc[w]).id == imported[k].id;
                    assert(m[w] == acc[w]);
                } else {
                    assert(m[acc.len() as int] == e);
                }
            }
        } else {
            assert forall|k: int| 0 <= k < imported.len() implies has_env_id(acc, #[trigger] imported[k].id) by {
                if k < imported.len() - 1 {
                    assert(imported.drop_last()[k] == imported[k]);
                }
            }
        }
    } else {
        assert(existing.take(existing.len() as int) =~= existing);
    }
}

} // verus!
