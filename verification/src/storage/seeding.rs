//! Keeping every flag configured in every environment of its project.
//!
//! A flag without a configuration somewhere would be absent from the snapshot
//! there, and an SDK would fall back to its own default with no way to tell that
//! from "the flag is off". So a new flag is seeded into every environment, and a
//! new environment is seeded with every flag. Seeds are disabled and carry no
//! rules: targeting is what differs between environments.

use vstd::prelude::*;

use crate::domain::Rule;
use crate::ids::Uuid;
use crate::storage::json::{json_string, write_json_string};
use crate::text::{maybe, same_text, texts};
use crate::time::Timestamp;

verus! {

/// A flag of the project, with its variants in the order they were defined.
#[derive(Debug)]
pub struct ProjectFlag {
    pub flag_id: Uuid,
    pub variant_keys: Vec<String>,
}

/// A configuration that exists already, and when its environment was created.
/// What it serves is copied as it is stored, so it stays JSON text: a document
/// that no longer decodes is no reason to refuse a new environment.
#[derive(Debug)]
pub struct ExistingConfig {
    pub flag_id: Uuid,
    pub environment_id: Uuid,
    pub environment_created_at: Timestamp,
    pub off_variant: String,
    pub fallthrough: String,
}

/// A configuration about to be inserted, its fallthrough as JSON text. A flag
/// without variants leaves no variant to serve, and the database refuses the row.
#[derive(Debug)]
pub struct NewConfig {
    pub flag_id: Uuid,
    pub environment_id: Uuid,
    pub enabled: bool,
    pub off_variant: Option<String>,
    pub fallthrough: String,
    pub rules: Vec<Rule>,
}

/// The JSON text of a distribution that serves one variant to everyone.
pub open spec fn fixed_document(variant: Option<Seq<char>>) -> Seq<char> {
    "{\"kind\":\"fixed\",\"variant\":"@ + (match variant {
        Some(variant) => json_string(variant),
        None => "null"@,
    }) + "}"@
}

fn write_fixed(variant: &Option<String>) -> (document: String)
    ensures
        document@ == fixed_document(maybe(*variant)),
{
    let mut document: String = "{\"kind\":\"fixed\",\"variant\":".to_owned();
    match variant {
        Some(variant) => document.append(write_json_string(variant.as_str()).as_str()),
        None => document.append("null"),
    }
    document.append("}");
    document
}

/// Whether one configuration's environment is older than another's; the
/// identifier decides between environments of the same moment.
pub open spec fn older(a: ExistingConfig, b: ExistingConfig) -> bool {
    ||| a.environment_created_at.precedes(b.environment_created_at)
    ||| a.environment_created_at == b.environment_created_at && a.environment_id.bits
        < b.environment_id.bits
}

/// The configuration of a flag in the oldest environment that has one.
pub open spec fn oldest(configs: Seq<ExistingConfig>, flag_id: Uuid) -> Option<ExistingConfig>
    decreases configs.len(),
{
    if configs.len() == 0 {
        None
    } else {
        let config = configs.last();
        match oldest(configs.drop_last(), flag_id) {
            Some(best) => if config.flag_id == flag_id && older(config, best) {
                Some(config)
            } else {
                Some(best)
            },
            None => if config.flag_id == flag_id {
                Some(config)
            } else {
                None
            },
        }
    }
}

/// The oldest configuration is one of the flag's, no other of them is older, and
/// there is one whenever the flag has any.
pub proof fn oldest_is_oldest(configs: Seq<ExistingConfig>, flag_id: Uuid)
    ensures
        match oldest(configs, flag_id) {
            Some(best) => {
                &&& configs.contains(best)
                &&& best.flag_id == flag_id
                &&& forall|i: int|
                    0 <= i < configs.len() && (#[trigger] configs[i]).flag_id == flag_id ==> !older(
                        configs[i],
                        best,
                    )
            },
            None => forall|i: int|
                0 <= i < configs.len() ==> (#[trigger] configs[i]).flag_id != flag_id,
        },
    decreases configs.len(),
{
    if configs.len() > 0 {
        let shorter = configs.drop_last();
        oldest_is_oldest(shorter, flag_id);
        assert(forall|i: int| 0 <= i < shorter.len() ==> shorter[i] == configs[i]);
        assert(configs[configs.len() - 1] == configs.last());
        match oldest(shorter, flag_id) {
            Some(best) => {
                let at = choose|at: int| 0 <= at < shorter.len() && shorter[at] == best;
                assert(configs[at] == best);
            },
            None => {},
        }
    }
}

/// The variant a flag falls back to when no environment configures it yet: the
/// one called `off`, or the first.
pub open spec fn default_variant(keys: Seq<Seq<char>>) -> Option<Seq<char>> {
    if keys.contains("off"@) {
        Some("off"@)
    } else if keys.len() > 0 {
        Some(keys[0])
    } else {
        None
    }
}

/// The variant a flag falls back to when no environment configures it yet.
pub fn choose_default(keys: &Vec<String>) -> (variant: Option<String>)
    ensures
        maybe(variant) == default_variant(texts(keys@)),
{
    for i in 0..keys.len()
        invariant
            forall|j: int| 0 <= j < i ==> (#[trigger] keys@[j])@ != "off"@,
    {
        if same_text(keys[i].as_str(), "off") {
            assert(texts(keys@)[i as int] == "off"@);
            return Some(keys[i].clone());
        }
    }
    assert forall|j: int| 0 <= j < texts(keys@).len() implies texts(keys@)[j] != "off"@ by {
        assert(keys@[j]@ != "off"@);
    }
    if keys.len() > 0 {
        assert(texts(keys@)[0] == keys@[0]@);
        Some(keys[0].clone())
    } else {
        None
    }
}

/// What a flag serves in a new environment: what the oldest environment that
/// configures it was given, or its default variant.
pub open spec fn seeds(
    seed: NewConfig,
    flag: ProjectFlag,
    environment_id: Uuid,
    configs: Seq<ExistingConfig>,
) -> bool {
    &&& seed.flag_id == flag.flag_id
    &&& seed.environment_id == environment_id
    &&& !seed.enabled
    &&& seed.rules@.len() == 0
    &&& match oldest(configs, flag.flag_id) {
        Some(reference) => {
            &&& maybe(seed.off_variant) == Some(reference.off_variant@)
            &&& seed.fallthrough@ == reference.fallthrough@
        },
        None => {
            let variant = default_variant(texts(flag.variant_keys@));
            &&& maybe(seed.off_variant) == variant
            &&& seed.fallthrough@ == fixed_document(variant)
        },
    }
}

fn find_oldest(configs: &Vec<ExistingConfig>, flag_id: Uuid) -> (at: Option<usize>)
    ensures
        match at {
            Some(i) => i < configs.len() && oldest(configs@, flag_id) == Some(configs@[i as int]),
            None => oldest(configs@, flag_id) is None,
        },
{
    let mut best: Option<usize> = None;
    for i in 0..configs.len()
        invariant
            match best {
                Some(b) => b < i && oldest(configs@.take(i as int), flag_id) == Some(
                    configs@[b as int],
                ),
                None => oldest(configs@.take(i as int), flag_id) is None,
            },
    {
        assert(configs@.take(i + 1).drop_last() =~= configs@.take(i as int));
        let config = &configs[i];
        if config.flag_id == flag_id {
            match best {
                Some(b) => {
                    let other = &configs[b];
                    if config.environment_created_at.is_before(&other.environment_created_at) || (
                    config.environment_created_at == other.environment_created_at
                        && config.environment_id.bits < other.environment_id.bits) {
                        best = Some(i);
                    }
                },
                None => {
                    best = Some(i);
                },
            }
        }
    }
    assert(configs@.take(configs.len() as int) =~= configs@);
    best
}

fn seed(flag: &ProjectFlag, environment_id: Uuid, configs: &Vec<ExistingConfig>) -> (made: NewConfig)
    ensures
        seeds(made, *flag, environment_id, configs@),
{
    let (off_variant, fallthrough): (Option<String>, String) = match find_oldest(
        configs,
        flag.flag_id,
    ) {
        Some(at) => (Some(configs[at].off_variant.clone()), configs[at].fallthrough.clone()),
        None => {
            let variant = choose_default(&flag.variant_keys);
            let document = write_fixed(&variant);
            (variant, document)
        },
    };
    NewConfig {
        flag_id: flag.flag_id,
        environment_id,
        enabled: false,
        off_variant,
        fallthrough,
        rules: Vec::new(),
    }
}

/// Whether a list of configurations seeds every flag of a project into a new
/// environment.
pub open spec fn seeds_environment(
    made: Seq<NewConfig>,
    environment_id: Uuid,
    flags: Seq<ProjectFlag>,
    configs: Seq<ExistingConfig>,
) -> bool {
    &&& made.len() == flags.len()
    &&& forall|i: int|
        0 <= i < flags.len() ==> seeds(#[trigger] made[i], flags[i], environment_id, configs)
}

/// The configurations of a new environment: every flag of its project.
pub fn seed_environment(
    environment_id: Uuid,
    flags: &Vec<ProjectFlag>,
    configs: &Vec<ExistingConfig>,
) -> (made: Vec<NewConfig>)
    ensures
        seeds_environment(made@, environment_id, flags@, configs@),
{
    let mut made: Vec<NewConfig> = Vec::new();
    for i in 0..flags.len()
        invariant
            made.len() == i,
            forall|j: int|
                0 <= j < i ==> seeds(#[trigger] made@[j], flags@[j], environment_id, configs@),
    {
        made.push(seed(&flags[i], environment_id, configs));
    }
    made
}

/// Whether a list of configurations seeds a new flag into every environment of
/// its project.
pub open spec fn seeds_flag(
    made: Seq<NewConfig>,
    flag_id: Uuid,
    environments: Seq<Uuid>,
    off_variant: Seq<char>,
    fallthrough: Seq<char>,
) -> bool {
    &&& made.len() == environments.len()
    &&& forall|i: int|
        0 <= i < environments.len() ==> {
            &&& (#[trigger] made[i]).flag_id == flag_id
            &&& made[i].environment_id == environments[i]
            &&& !made[i].enabled
            &&& made[i].rules@.len() == 0
            &&& maybe(made[i].off_variant) == Some(off_variant)
            &&& made[i].fallthrough@ == fallthrough
        }
}

/// The configurations of a new flag: every environment of its project.
/// `fallthrough` is the distribution as JSON text.
pub fn seed_flag(
    flag_id: Uuid,
    environments: &Vec<Uuid>,
    off_variant: &str,
    fallthrough: &str,
) -> (made: Vec<NewConfig>)
    ensures
        seeds_flag(made@, flag_id, environments@, off_variant@, fallthrough@),
        made@.len() == environments@.len(),
        forall|i: int|
            0 <= i < environments@.len() ==> {
                &&& (#[trigger] made@[i]).flag_id == flag_id
                &&& made@[i].environment_id == environments@[i]
                &&& !made@[i].enabled
                &&& made@[i].rules@.len() == 0
                &&& made@[i].off_variant is Some && made@[i].off_variant->0@ == off_variant@
                &&& made@[i].fallthrough@ == fallthrough@
            },
{
    let mut made: Vec<NewConfig> = Vec::new();
    for i in 0..environments.len()
        invariant
            made.len() == i,
            seeds_flag(
                made@,
                flag_id,
                environments@.take(i as int),
                off_variant@,
                fallthrough@,
            ),
    {
        made.push(
            NewConfig {
                flag_id,
                environment_id: environments[i],
                enabled: false,
                off_variant: Some(off_variant.to_owned()),
                fallthrough: fallthrough.to_owned(),
                rules: Vec::new(),
            },
        );
    }
    assert(environments@.take(environments.len() as int) =~= environments@);
    made
}

/// Which flag is configured in which environment, once a list of configurations
/// has been inserted.
pub open spec fn inserted(configured: Set<(Uuid, Uuid)>, made: Seq<NewConfig>) -> Set<(Uuid, Uuid)> {
    configured.union(
        Set::new(
            |pair: (Uuid, Uuid)|
                exists|i: int|
                    0 <= i < made.len() && (#[trigger] made[i]).flag_id == pair.0
                        && made[i].environment_id == pair.1,
        ),
    )
}

/// Every flag is configured in every environment.
pub open spec fn complete(
    flags: Set<Uuid>,
    environments: Set<Uuid>,
    configured: Set<(Uuid, Uuid)>,
) -> bool {
    forall|f: Uuid, e: Uuid|
        flags.contains(f) && environments.contains(e) ==> #[trigger] configured.contains((f, e))
}

/// A new environment leaves every flag configured in every environment.
pub proof fn new_environment_is_complete(
    environment_id: Uuid,
    flags: Seq<ProjectFlag>,
    configs: Seq<ExistingConfig>,
    environments: Set<Uuid>,
    configured: Set<(Uuid, Uuid)>,
    made: Seq<NewConfig>,
)
    requires
        seeds_environment(made, environment_id, flags, configs),
        complete(
            flags.map_values(|f: ProjectFlag| f.flag_id).to_set(),
            environments,
            configured,
        ),
    ensures
        complete(
            flags.map_values(|f: ProjectFlag| f.flag_id).to_set(),
            environments.insert(environment_id),
            inserted(configured, made),
        ),
{
    let ids = flags.map_values(|f: ProjectFlag| f.flag_id);
    assert forall|f: Uuid, e: Uuid|
        ids.to_set().contains(f) && environments.insert(environment_id).contains(
            e,
        ) implies #[trigger] inserted(configured, made).contains((f, e)) by {
        if e == environment_id {
            let i = choose|i: int| 0 <= i < ids.len() && ids[i] == f;
            assert(seeds(made[i], flags[i], environment_id, configs));
        } else {
            assert(configured.contains((f, e)));
        }
    }
}

/// A new flag leaves every flag configured in every environment.
pub proof fn new_flag_is_complete(
    flag_id: Uuid,
    flags: Set<Uuid>,
    environments: Seq<Uuid>,
    off_variant: Seq<char>,
    fallthrough: Seq<char>,
    configured: Set<(Uuid, Uuid)>,
    made: Seq<NewConfig>,
)
    requires
        seeds_flag(made, flag_id, environments, off_variant, fallthrough),
        complete(flags, environments.to_set(), configured),
    ensures
        complete(flags.insert(flag_id), environments.to_set(), inserted(configured, made)),
{
    assert forall|f: Uuid, e: Uuid|
        flags.insert(flag_id).contains(f) && environments.to_set().contains(
            e,
        ) implies #[trigger] inserted(configured, made).contains((f, e)) by {
        if f == flag_id {
            let i = choose|i: int| 0 <= i < environments.len() && environments[i] == e;
            assert(made[i].flag_id == f && made[i].environment_id == e);
        } else {
            assert(configured.contains((f, e)));
        }
    }
}

/// What a new environment serves of each flag: where any environment configures
/// the flag, what the one created first was given, the identifier deciding between
/// two of the same moment; otherwise the variant called `off`, or else the first,
/// to everyone. Every seed is off and without rules.
pub proof fn a_seed_copies_the_environment_created_first(
    made: Seq<NewConfig>,
    environment_id: Uuid,
    flags: Seq<ProjectFlag>,
    configs: Seq<ExistingConfig>,
    at: int,
)
    requires
        seeds_environment(made, environment_id, flags, configs),
        0 <= at < flags.len(),
    ensures
        made.len() == flags.len(),
        made[at].flag_id == flags[at].flag_id,
        made[at].environment_id == environment_id,
        !made[at].enabled,
        made[at].rules@.len() == 0,
        (exists|c: int|
            0 <= c < configs.len() && (#[trigger] configs[c]).flag_id == flags[at].flag_id) ==> (
        exists|c: int|
            {
                &&& 0 <= c < configs.len()
                &&& (#[trigger] configs[c]).flag_id == flags[at].flag_id
                &&& made[at].off_variant is Some
                &&& made[at].off_variant->0@ == configs[c].off_variant@
                &&& made[at].fallthrough@ == configs[c].fallthrough@
                &&& forall|d: int|
                    0 <= d < configs.len() && (#[trigger] configs[d]).flag_id == flags[at].flag_id
                        ==> {
                        let first = configs[c].environment_created_at;
                        let other = configs[d].environment_created_at;
                        ||| first.seconds < other.seconds
                        ||| first.seconds == other.seconds && first.nanos < other.nanos
                        ||| first.seconds == other.seconds && first.nanos == other.nanos
                            && configs[c].environment_id.bits <= configs[d].environment_id.bits
                    }
            }),
        (forall|c: int|
            0 <= c < configs.len() ==> (#[trigger] configs[c]).flag_id != flags[at].flag_id) ==> {
            let keys = flags[at].variant_keys@;
            &&& keys.len() == 0 ==> made[at].off_variant is None
            &&& keys.len() > 0 ==> made[at].off_variant is Some && made[at].fallthrough@
                == "{\"kind\":\"fixed\",\"variant\":"@ + json_string(made[at].off_variant->0@) + "}"@
            &&& (exists|k: int| 0 <= k < keys.len() && (#[trigger] keys[k])@ == "off"@)
                ==> made[at].off_variant->0@ == "off"@
            &&& keys.len() > 0 && (forall|k: int|
                0 <= k < keys.len() ==> (#[trigger] keys[k])@ != "off"@)
                ==> made[at].off_variant->0@ == keys[0]@
        },
{
    let flag_id = flags[at].flag_id;
    let keys = flags[at].variant_keys@;
    assert(seeds(made[at], flags[at], environment_id, configs));
    oldest_is_oldest(configs, flag_id);
    match oldest(configs, flag_id) {
        Some(best) => {
            let c = choose|c: int| 0 <= c < configs.len() && configs[c] == best;
            assert(configs[c].flag_id == flag_id);
        },
        None => {
            let names = texts(keys);
            assert forall|k: int| 0 <= k < keys.len() implies names[k] == (
            #[trigger] keys[k])@ by {}
            if exists|k: int| 0 <= k < keys.len() && (#[trigger] keys[k])@ == "off"@ {
                let k = choose|k: int| 0 <= k < keys.len() && (#[trigger] keys[k])@ == "off"@;
                assert(names[k] == "off"@);
                assert(names.contains("off"@));
            } else {
                assert(!names.contains("off"@));
            }
        },
    }
}

} // verus!
