//! The run configuration and the cache path scheme.
//!
//! A configuration is built once per run by the caller (argument parsing and
//! path resolution happen there) and is read-only afterwards. The library
//! only derives cache file paths from it and reads its policy flags.

use vstd::prelude::*;
use vstd::string::StringExecFns;
use crate::fingerprint::{lemma_u64_dec_injective, u64_dec};

verus! {

/// One run's immutable configuration: the source image path, the cache
/// directory prefix, and the four policy flags.
#[derive(Clone)]
pub struct AppConfig {
    pub image_path: String,
    pub cache_path: String,
    pub force_resplit: bool,
    pub no_downscale: bool,
    pub dont_set: bool,
    pub silent: bool,
}

impl AppConfig {
    /// The cache file path for one `(fingerprint, monitor)` pair: the cache
    /// prefix followed by `swaybg_spread_<hash>_<monitor_name>.png`.
    pub open spec fn fragment_path_spec(self, monitor_name: Seq<char>, hash: Seq<char>) -> Seq<
        char,
    > {
        self.cache_path@ + "swaybg_spread_"@ + hash + "_"@ + monitor_name + ".png"@
    }

    /// Resolves the cache file path for one monitor under one fingerprint.
    /// A pure function of its inputs: the same triple always yields the same
    /// path, and distinct monitor names under one fingerprint cannot agree.
    pub fn resolve_cached_fragment_path(&self, monitor_name: &str, hash: &str) -> (r: String)
        ensures
            r@ == self.fragment_path_spec(monitor_name@, hash@),
    {
        let mut r = self.cache_path.clone();
        r.append("swaybg_spread_");
        r.append(hash);
        r.append("_");
        r.append(monitor_name);
        r.append(".png");
        proof {
            assert(r@ =~= self.fragment_path_spec(monitor_name@, hash@));
        }
        r
    }
}

/// Law: the path scheme keeps distinct monitor names apart — under one
/// configuration and one fingerprint, monitors with distinct names get
/// distinct cache paths.
pub proof fn lemma_fragment_paths_distinct(
    config: AppConfig,
    name1: Seq<char>,
    name2: Seq<char>,
    hash: Seq<char>,
)
    requires
        name1 != name2,
    ensures
        config.fragment_path_spec(name1, hash) != config.fragment_path_spec(name2, hash),
{
    let p1 = config.fragment_path_spec(name1, hash);
    let p2 = config.fragment_path_spec(name2, hash);
    let prefix = config.cache_path@ + "swaybg_spread_"@ + hash + "_"@;
    assert(p1 =~= prefix + name1 + ".png"@);
    assert(p2 =~= prefix + name2 + ".png"@);
    if p1 == p2 {
        assert(name1.len() == name2.len());
        assert forall|k: int| 0 <= k < name1.len() implies name1[k] == name2[k] by {
            assert(p1[prefix.len() + k] == name1[k]);
            assert(p2[prefix.len() + k] == name2[k]);
        }
        assert(name1 =~= name2);
    }
}

/// Law: under one configuration and one monitor, distinct fingerprints get
/// distinct cache paths — a new fingerprint never lands on an old file.
pub proof fn lemma_fragment_paths_distinct_hashes(
    config: AppConfig,
    name: Seq<char>,
    hash1: Seq<char>,
    hash2: Seq<char>,
)
    requires
        hash1 != hash2,
    ensures
        config.fragment_path_spec(name, hash1) != config.fragment_path_spec(name, hash2),
{
    let p1 = config.fragment_path_spec(name, hash1);
    let p2 = config.fragment_path_spec(name, hash2);
    let prefix = config.cache_path@ + "swaybg_spread_"@;
    assert(p1 =~= prefix + hash1 + ("_"@ + name + ".png"@));
    assert(p2 =~= prefix + hash2 + ("_"@ + name + ".png"@));
    if p1 == p2 {
        assert(hash1.len() == hash2.len());
        assert forall|k: int| 0 <= k < hash1.len() implies hash1[k] == hash2[k] by {
            assert(p1[prefix.len() + k] == hash1[k]);
            assert(p2[prefix.len() + k] == hash2[k]);
        }
        assert(hash1 =~= hash2);
    }
}

/// Law: two runs whose fingerprints differ keep out of each other's way on
/// disk — for any monitor, their cache paths differ, so a new fingerprint
/// never overwrites an old fingerprint's fragments.
pub proof fn lemma_distinct_fingerprints_distinct_paths(
    config: AppConfig,
    name: Seq<char>,
    fp1: u64,
    fp2: u64,
)
    requires
        fp1 != fp2,
    ensures
        config.fragment_path_spec(name, u64_dec(fp1 as nat)) != config.fragment_path_spec(
            name,
            u64_dec(fp2 as nat),
        ),
{
    if u64_dec(fp1 as nat) == u64_dec(fp2 as nat) {
        lemma_u64_dec_injective(fp1 as nat, fp2 as nat);
    }
    lemma_fragment_paths_distinct_hashes(config, name, u64_dec(fp1 as nat), u64_dec(fp2 as nat));
}

} // verus!
