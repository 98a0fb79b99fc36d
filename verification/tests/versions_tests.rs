use pacnews::versions::{lookup_version, outdated_from, pair_versions, PackageVersion, VersionPair};

fn pkg(name: &str, version: &str) -> PackageVersion {
    PackageVersion { name: name.to_string(), version: version.to_string() }
}

#[test]
fn pairs_only_names_present_in_both() {
    let installed = vec![pkg("linux", "6.6"), pkg("local-only", "1.0"), pkg("gimp", "2.10")];
    let remote = vec![pkg("gimp", "2.11"), pkg("linux", "6.7")];
    let pairs = pair_versions(&installed, &remote);
    assert_eq!(
        pairs,
        vec![
            VersionPair {
                name: "linux".to_string(),
                installed: "6.6".to_string(),
                remote: "6.7".to_string(),
            },
            VersionPair {
                name: "gimp".to_string(),
                installed: "2.10".to_string(),
                remote: "2.11".to_string(),
            },
        ]
    );
}

#[test]
fn lookup_last_entry_of_a_name_wins() {
    let remote = vec![pkg("linux", "6.7"), pkg("linux", "6.8")];
    assert_eq!(lookup_version(&remote, &"linux".to_string()), Some("6.8".to_string()));
    assert_eq!(lookup_version(&remote, &"gimp".to_string()), None);
    assert_eq!(lookup_version(&Vec::new(), &"linux".to_string()), None);
}

#[test]
fn outdated_keeps_flagged_pairs_with_remote_version() {
    let pairs = vec![
        VersionPair {
            name: "linux".to_string(),
            installed: "6.6".to_string(),
            remote: "6.7".to_string(),
        },
        VersionPair {
            name: "gimp".to_string(),
            installed: "2.10".to_string(),
            remote: "2.10".to_string(),
        },
    ];
    let newer = vec![true, false];
    let outdated = outdated_from(&pairs, &newer);
    assert_eq!(outdated, vec![pkg("linux", "6.7")]);
}

#[test]
fn package_absent_from_remote_never_appears() {
    let installed = vec![pkg("local-only", "1.0")];
    let remote = vec![pkg("linux", "6.7")];
    let pairs = pair_versions(&installed, &remote);
    assert!(pairs.is_empty());
    assert!(outdated_from(&pairs, &Vec::new()).is_empty());
}

#[test]
fn equal_or_older_remote_is_excluded_by_its_flag() {
    let installed = vec![pkg("a", "2"), pkg("b", "2"), pkg("c", "2")];
    let remote = vec![pkg("a", "3"), pkg("b", "2"), pkg("c", "1")];
    let pairs = pair_versions(&installed, &remote);
    // The caller's version ordering finds only `a` strictly newer remotely.
    let newer: Vec<bool> = pairs.iter().map(|p| p.remote > p.installed).collect();
    let outdated = outdated_from(&pairs, &newer);
    assert_eq!(outdated, vec![pkg("a", "3")]);
}
