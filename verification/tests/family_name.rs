use core::cmp::Ordering;
use std::hash::{BuildHasher, Hasher};

use package_family_name::{PackageFamilyName, PackageFamilyNameError, PublisherIdError};

#[test]
fn microsoft_windows_photos() {
    let package_family_name = PackageFamilyName::new(
        "Microsoft.Windows.Photos",
        "CN=Microsoft Corporation, O=Microsoft Corporation, L=Redmond, S=Washington, C=US",
    );

    assert_eq!(
        package_family_name.to_string(),
        "Microsoft.Windows.Photos_8wekyb3d8bbwe"
    );
}

#[test]
fn hydraulic_conveyor_15() {
    let package_family_name = PackageFamilyName::new(
        "Conveyor",
        "CN=Hydraulic Software AG, O=Hydraulic Software AG, L=Zürich, S=Zürich, C=CH, SERIALNUMBER=CHE-312.597.948, OID.1.3.6.1.4.1.311.60.2.1.2=Zürich, OID.1.3.6.1.4.1.311.60.2.1.3=CH, OID.2.5.4.15=Private Organization",
    );

    assert_eq!(package_family_name.to_string(), "Conveyor_fg3qp2cw01ypp");
}

#[test]
fn hydraulic_conveyor_16() {
    let package_family_name = PackageFamilyName::new(
        "Conveyor",
        "CN=Hydraulic Software AG, O=Hydraulic Software AG, L=Zürich, S=Zürich, C=CH, SERIALNUMBER=CHE-312.597.948, OID.2.5.4.15=Private Organization, OID.1.3.6.1.4.1.311.60.2.1.2=Zürich, OID.1.3.6.1.4.1.311.60.2.1.3=CH",
    );

    assert_eq!(package_family_name.to_string(), "Conveyor_r94jb655n6kcp");
}

#[test]
fn lib_equality() {
    let powershell_pfn_1 = "Microsoft.PowerShell_8wekyb3d8bbwe"
        .parse::<PackageFamilyName>()
        .unwrap();
    let powershell_pfn_2 = "microsoft.powerShell_8WEKYB3D8BBWE"
        .parse::<PackageFamilyName>()
        .unwrap();

    assert_eq!(powershell_pfn_1, powershell_pfn_1);
    assert_eq!(powershell_pfn_1, powershell_pfn_2);
    assert_ne!(
        powershell_pfn_1,
        "Conveyor_fg3qp2cw01ypp"
            .parse::<PackageFamilyName>()
            .unwrap()
    );
}

#[test]
fn lib_comparison() {
    let powershell_pfn_1 = "Microsoft.PowerShell_8wekyb3d8bbwe"
        .parse::<PackageFamilyName>()
        .unwrap();
    let powershell_pfn_2 = "microsoft.powerShell_8WEKYB3D8BBWE"
        .parse::<PackageFamilyName>()
        .unwrap();

    assert_eq!(powershell_pfn_1.cmp(&powershell_pfn_1), Ordering::Equal);
    assert_eq!(powershell_pfn_1.cmp(&powershell_pfn_2), Ordering::Equal);

    let conveyor_pfn = "Conveyor_fg3qp2cw01ypp"
        .parse::<PackageFamilyName>()
        .unwrap();
    assert_eq!(powershell_pfn_1.cmp(&conveyor_pfn), Ordering::Greater);
    assert_eq!(conveyor_pfn.cmp(&powershell_pfn_1), Ordering::Less);
}

#[test]
fn lib_hash() {
    // If two keys are equal, their hash inputs must also be equal.
    let package_family_name_1 = "Microsoft.PowerShell_8wekyb3d8bbwe"
        .parse::<PackageFamilyName>()
        .unwrap();
    let package_family_name_2 = "microsoft.powerShell_8WEKYB3D8BBWE"
        .parse::<PackageFamilyName>()
        .unwrap();
    assert_eq!(package_family_name_1, package_family_name_2);

    let state = foldhash::fast::RandomState::default();
    let mut package_family_name_1_hasher = state.build_hasher();
    package_family_name_1_hasher.write(&package_family_name_1.hash_bytes());

    let mut package_family_name_2_hasher = state.build_hasher();
    package_family_name_2_hasher.write(&package_family_name_2.hash_bytes());

    assert_eq!(
        package_family_name_1_hasher.finish(),
        package_family_name_2_hasher.finish()
    );
}

#[test]
fn powershell_vector() {
    let package_family_name = PackageFamilyName::new(
        "Microsoft.PowerShell",
        "CN=Microsoft Corporation, O=Microsoft Corporation, L=Redmond, S=Washington, C=US",
    );
    assert_eq!(
        package_family_name.to_string(),
        "Microsoft.PowerShell_8wekyb3d8bbwe"
    );
}

#[test]
fn app_name_vector() {
    let package_family_name = PackageFamilyName::new("AppName", "Publisher Software");
    assert_eq!(package_family_name.to_string(), "AppName_zj75k085cmj1a");
}

#[test]
fn getters() {
    let package_family_name = PackageFamilyName::new("AppName", "Publisher Software");
    assert_eq!(package_family_name.package_name(), "AppName");
    assert_eq!(package_family_name.publisher_id().as_str(), "zj75k085cmj1a");
}

#[test]
fn no_underscore_rejected() {
    assert_eq!(
        "NoSeparatorHere".parse::<PackageFamilyName>().err(),
        Some(PackageFamilyNameError::NoUnderscore)
    );
}

#[test]
fn bad_id_part_rejected() {
    assert_eq!(
        "AppName_abc".parse::<PackageFamilyName>().err(),
        Some(PackageFamilyNameError::PublisherId(
            PublisherIdError::InvalidLength
        ))
    );
    assert_eq!(
        "AppName_zI75KO85cmL1U".parse::<PackageFamilyName>().err(),
        Some(PackageFamilyNameError::PublisherId(
            PublisherIdError::InvalidCharacters
        ))
    );
}

#[test]
fn format_of_parse_round_trip() {
    let canonical = "Microsoft.PowerShell_8wekyb3d8bbwe";
    let parsed = canonical.parse::<PackageFamilyName>().unwrap();
    assert_eq!(parsed.to_string(), canonical);
}

#[test]
fn parse_of_format_round_trip() {
    let constructed = PackageFamilyName::new("AppName", "Publisher Software");
    let reparsed = constructed
        .to_string()
        .parse::<PackageFamilyName>()
        .unwrap();
    assert_eq!(reparsed, constructed);
    assert_eq!(reparsed.package_name(), constructed.package_name());
}

#[test]
fn empty_name_parses_and_round_trips() {
    let parsed = "_zj75k085cmj1a".parse::<PackageFamilyName>().unwrap();
    assert_eq!(parsed.package_name(), "");
    assert_eq!(parsed.to_string(), "_zj75k085cmj1a");
}

#[test]
fn default_family_name_is_placeholder() {
    let placeholder = PackageFamilyName::default();
    assert_eq!(placeholder.package_name(), "");
    assert_eq!(placeholder.to_string(), "_0000000000000");
}

#[test]
fn underscore_in_name_splits_at_first() {
    // The split happens at the first underscore, so a name that itself
    // contains one makes the remainder an invalid id.
    assert_eq!(
        "My_App_zj75k085cmj1a".parse::<PackageFamilyName>().err(),
        Some(PackageFamilyNameError::PublisherId(
            PublisherIdError::InvalidCharacters
        ))
    );
    // With a 13-character tail the prefix keeps the extra underscore.
    let parsed = "My_zj75k085cmj1a".parse::<PackageFamilyName>().unwrap();
    assert_eq!(parsed.package_name(), "My");
}
