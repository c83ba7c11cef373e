use zip_region::locator::{is_region_folder_name, DEFAULT_REGION_PREFIX};
use zip_region::{LocatorError, RegionLayout, RegionLocator};

fn names(list: &[&str]) -> Vec<String> {
    list.iter().map(|s| s.to_string()).collect()
}

#[test]
fn no_region_folder_is_refused() {
    let r = RegionLocator::discover(&names(&["world/", "world/level.dat", "regionx/"]));
    assert_eq!(r.err(), Some(LocatorError::NoRegionFolderFound));
}

#[test]
fn empty_listing_is_refused() {
    let r = RegionLocator::discover(&Vec::new());
    assert_eq!(r.err(), Some(LocatorError::NoRegionFolderFound));
}

#[test]
fn two_region_folders_are_ambiguous() {
    let r = RegionLocator::discover(&names(&[
        "a/",
        "a/region/",
        "a/region/r.0.0.mca",
        "b/",
        "b/region/",
        "b/region/r.0.0.mca",
    ]));
    assert_eq!(r.err(), Some(LocatorError::AmbiguousRegionFolder));
}

#[test]
fn one_region_folder_gives_its_prefix() {
    let r = RegionLocator::discover(&names(&[
        "world/level.dat",
        "world/region/r.0.0.mca",
        "world/region/",
        "world/",
    ]))
    .unwrap();
    assert_eq!(r.prefix(), "world/region/");
}

#[test]
fn region_folder_at_root() {
    let r = RegionLocator::discover(&names(&["region/", "region/r.1.2.mca"])).unwrap();
    assert_eq!(r.prefix(), "region/");
}

#[test]
fn last_component_must_be_region() {
    assert!(is_region_folder_name("region/"));
    assert!(is_region_folder_name("region"));
    assert!(is_region_folder_name("a/b/region/"));
    assert!(!is_region_folder_name("myregion/"));
    assert!(!is_region_folder_name("region/r.0.0.mca"));
    assert!(!is_region_folder_name("regions/"));
    assert!(!is_region_folder_name("egion/"));
    assert!(!is_region_folder_name(""));
    assert!(!is_region_folder_name("/"));
}

#[test]
fn entry_names_follow_the_template() {
    let l = RegionLocator::with_prefix("world/region/".to_string());
    assert_eq!(l.region_entry_name(0, 0), "world/region/r.0.0.mca");
    assert_eq!(l.region_entry_name(-1, 12), "world/region/r.-1.12.mca");
    assert_eq!(l.region_entry_name(1234567, -98), "world/region/r.1234567.-98.mca");
    assert_eq!(
        l.region_entry_name(i32::MIN, i32::MAX),
        "world/region/r.-2147483648.2147483647.mca"
    );
}

#[test]
fn default_prefix_is_region() {
    let l = RegionLocator::default_prefix();
    assert_eq!(l.prefix(), DEFAULT_REGION_PREFIX);
    assert_eq!(l.region_entry_name(3, -4), "region/r.3.-4.mca");
}

#[test]
fn fixed_layout_skips_discovery() {
    let l = RegionLocator::from_layout(RegionLayout::FixedPrefix("x/".to_string()), &Vec::new())
        .unwrap();
    assert_eq!(l.prefix(), "x/");
    let r = RegionLocator::from_layout(RegionLayout::AutoDiscover, &names(&["x/"]));
    assert_eq!(r.err(), Some(LocatorError::NoRegionFolderFound));
}

#[test]
fn names_are_normalised_like_zip_sanitised_names() {
    assert!(is_region_folder_name("world\\region\\"));
    assert!(is_region_folder_name("world/region//"));
    assert!(is_region_folder_name("world/region/."));
    assert!(is_region_folder_name("world/region/.."));
    assert!(is_region_folder_name("/region"));
    assert!(is_region_folder_name("a/./region/"));
    assert!(is_region_folder_name("region\0junk/"));
    assert!(!is_region_folder_name("\0region/"));
    assert!(!is_region_folder_name("region/x/.."));
    assert!(!is_region_folder_name("./.."));
}

#[test]
fn backslash_folder_is_discovered_under_its_own_name() {
    let r = RegionLocator::discover(&names(&["world\\region\\", "world\\level.dat"])).unwrap();
    assert_eq!(r.prefix(), "world\\region\\");
}
