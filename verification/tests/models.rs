use massload::{CreatorRole, MusicalWorkType, PartyId};

#[test]
fn test_party_id_from_optional() {
    assert!(matches!(PartyId::from_optional(Some(123), None), Some(PartyId::Ipi(123))));
    assert!(matches!(
        PartyId::from_optional(None, Some("0000000123456789".into())),
        Some(PartyId::Isni(_))
    ));
    assert!(matches!(
        PartyId::from_optional(Some(123), Some("0000000123456789".into())),
        Some(PartyId::Both { .. })
    ));
    assert!(PartyId::from_optional(None, None).is_none());
}

#[test]
fn test_creator_role_from_code() {
    assert_eq!(CreatorRole::from_code("C"), Some(CreatorRole::Composer));
    assert_eq!(CreatorRole::from_code("AUTEUR"), Some(CreatorRole::Author));
    assert_eq!(CreatorRole::from_code("ca"), Some(CreatorRole::ComposerAuthor));
    assert_eq!(CreatorRole::from_code("INVALID"), None);
}

#[test]
fn test_creator_role_roundtrip() {
    let role = CreatorRole::Composer;
    let code = role.to_code();
    assert_eq!(CreatorRole::from_code(code), Some(CreatorRole::Composer));
}

#[test]
fn every_role_comes_back_from_its_code() {
    let roles = [
        (CreatorRole::Composer, "C"),
        (CreatorRole::Author, "A"),
        (CreatorRole::ComposerAuthor, "CA"),
        (CreatorRole::Arranger, "AR"),
        (CreatorRole::Adapter, "AD"),
        (CreatorRole::Translator, "TR"),
        (CreatorRole::SubAuthor, "SA"),
        (CreatorRole::SubArranger, "SR"),
        (CreatorRole::Publisher, "E"),
        (CreatorRole::OriginalPublisher, "SE"),
        (CreatorRole::SubPublisher, "ES"),
    ];
    for (role, code) in roles {
        assert_eq!(role.to_code(), code);
        assert_eq!(CreatorRole::from_code(code), Some(role));
    }
}

#[test]
fn role_names_in_two_languages() {
    assert_eq!(CreatorRole::from_code("  parolier "), Some(CreatorRole::Author));
    assert_eq!(CreatorRole::from_code("Sous-Arrangeur"), Some(CreatorRole::SubArranger));
    assert_eq!(CreatorRole::from_code("editeur_original"), Some(CreatorRole::OriginalPublisher));
    assert_eq!(CreatorRole::from_code("sub_publisher"), Some(CreatorRole::SubPublisher));
    assert_eq!(CreatorRole::from_code(""), None);
}

#[test]
fn party_id_parts() {
    let both = PartyId::from_optional(Some(7), Some("0000000121464388".to_string())).unwrap();
    assert_eq!(both.ipi(), Some(7));
    assert_eq!(both.isni(), Some("0000000121464388"));
    let ipi = PartyId::Ipi(9);
    assert_eq!(ipi.ipi(), Some(9));
    assert_eq!(ipi.isni(), None);
    let isni = PartyId::Isni("X".to_string());
    assert_eq!(isni.ipi(), None);
    assert_eq!(isni.isni(), Some("X"));
    assert_eq!(isni.clone(), isni);
}

#[test]
fn default_work_type_is_original() {
    assert_eq!(MusicalWorkType::default(), MusicalWorkType::Original);
}
