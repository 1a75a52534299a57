use osuvs_engine::attributes::{parse_artifact, AttributeCache};

fn artifact_bytes() -> Vec<u8> {
    let content = "osu file format v14\n\n\
        [General]\n\
        Mode: 0\n\n\
        [Difficulty]\n\
        HPDrainRate:5\n\
        CircleSize:4\n\
        OverallDifficulty:8\n\
        ApproachRate:9\n\
        SliderMultiplier:1.4\n\
        SliderTickRate:1\n\n\
        [TimingPoints]\n\
        0,500,4,2,0,100,1,0\n\n\
        [HitObjects]\n\
        100,100,0,1,0,0:0:0:0:\n\
        200,200,500,1,0,0:0:0:0:\n\
        300,100,1000,1,0,0:0:0:0:\n\
        150,150,1500,1,0,0:0:0:0:\n";
    content.as_bytes().to_vec()
}

#[test]
fn artifact_parses_into_beatmap() {
    let map = parse_artifact(&artifact_bytes());
    assert!(map.is_some());
}

#[test]
fn attributes_are_memoized_per_mods() {
    let map = parse_artifact(&artifact_bytes()).unwrap();
    let mut cache = AttributeCache::new();
    cache.set_map(42);

    cache.ensure_cached(&map, 0);
    assert_eq!(cache.entries.len(), 1);
    let first = cache.get(0).unwrap().clone();

    // A second request for the same mods value computes nothing new.
    cache.ensure_cached(&map, 0);
    assert_eq!(cache.entries.len(), 1);
    assert_eq!(cache.get(0).unwrap(), &first);

    // Another mods value gets its own entry.
    cache.ensure_cached(&map, 64);
    assert_eq!(cache.entries.len(), 2);
    assert!(cache.get(64).is_some());
    assert_eq!(cache.get(0).unwrap(), &first);

    assert!(first.stars() > 0.0);
}

#[test]
fn map_change_invalidates_attribute_cache() {
    let map = parse_artifact(&artifact_bytes()).unwrap();
    let mut cache = AttributeCache::new();
    cache.set_map(42);
    cache.ensure_cached(&map, 0);
    assert_eq!(cache.entries.len(), 1);

    cache.set_map(42);
    assert_eq!(cache.entries.len(), 1);

    cache.set_map(43);
    assert_eq!(cache.entries.len(), 0);
}
