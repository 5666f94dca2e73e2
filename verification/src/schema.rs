//! The versions of the database schema and which of them a database still
//! needs.
use vstd::prelude::*;

verus! {

/// The schema version that the application expects.
pub const CURRENT_VERSION: i32 = 3;

/// One step of the schema's history.
#[derive(Debug, Clone, Copy, PartialEq, Eq)]
pub struct Migration {
    pub version: i32,
    pub description: &'static str,
}

pub open spec fn migration_versions() -> Seq<i32> {
    seq![1i32, 2i32, 3i32]
}

/// Every migration, oldest first.
pub fn migrations() -> (m: Vec<Migration>)
    ensures
        m@.map_values(|x: Migration| x.version) == migration_versions(),
        m[0].description@ == "Initial schema: projects, characters, sprites, workflows, jobs, settings"@,
        m[1].description@ == "Add generated status support and concept_image_path to characters"@,
        m[2].description@ == "Cloud API support, LoRA management tables"@,
{
    let m = vec![
        Migration {
            version: 1,
            description: "Initial schema: projects, characters, sprites, workflows, jobs, settings",
        },
        Migration {
            version: 2,
            description: "Add generated status support and concept_image_path to characters",
        },
        Migration { version: 3, description: "Cloud API support, LoRA management tables" },
    ];
    proof {
        assert(m@.map_values(|x: Migration| x.version) =~= migration_versions());
    }
    m
}

/// The migrations a database at version `current` still needs: those of a
/// later version, oldest first.
pub fn pending_migrations(current: i32) -> (r: Vec<Migration>)
    ensures
        r@.map_values(|x: Migration| x.version) == migration_versions().filter(|v: i32| v > current),
{
    let all = migrations();
    let ghost vs = migration_versions();
    let ghost pred = |v: i32| v > current;
    let mut r: Vec<Migration> = Vec::new();
    let mut i: usize = 0;
    proof {
        reveal(Seq::filter);
        assert(vs.take(0) =~= Seq::<i32>::empty());
    }
    while i < all.len()
        invariant
            i <= all.len(),
            all@.map_values(|x: Migration| x.version) == vs,
            vs == migration_versions(),
            pred == (|v: i32| v > current),
            r@.map_values(|x: Migration| x.version) == vs.take(i as int).filter(pred),
        decreases all.len() - i,
    {
        proof {
            reveal(Seq::filter);
            assert(vs.take(i + 1).drop_last() =~= vs.take(i as int));
            assert(vs.take(i + 1).last() == all@[i as int].version);
        }
        let ghost prev = r@;
        if all[i].version > current {
            r.push(all[i]);
            proof {
                assert(r@.map_values(|x: Migration| x.version) =~= prev.map_values(|x: Migration| x.version).push(
                    all@[i as int].version,
                ));
            }
        }
        i = i + 1;
    }
    proof {
        assert(vs.take(all.len() as int) =~= vs);
    }
    r
}

/// The last migration is the current version, and a database at that
/// version needs nothing more.
pub proof fn lemma_current_is_complete()
    ensures
        migration_versions().last() == CURRENT_VERSION,
        migration_versions().filter(|v: i32| v > CURRENT_VERSION) == Seq::<i32>::empty(),
{
    reveal_with_fuel(Seq::filter, 4);
    assert(migration_versions().drop_last() =~= seq![1i32, 2i32]);
    assert(migration_versions().drop_last().drop_last() =~= seq![1i32]);
    assert(migration_versions().drop_last().drop_last().drop_last() =~= Seq::<i32>::empty());
    assert(migration_versions().filter(|v: i32| v > CURRENT_VERSION) =~= Seq::<i32>::empty());
}

} // verus!
