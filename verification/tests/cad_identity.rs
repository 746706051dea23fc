use reyn_studio::cad_identity::{
    diff_named_region_identities, validate_assignment_identity,
    validate_region_remap_for_evidence, FaceIdentity, FaceIdentityKind, NamedRegionIdentity,
    RemapClass,
};

fn region(name: &str, role: &str, kind: FaceIdentityKind, id: &str) -> NamedRegionIdentity {
    NamedRegionIdentity {
        name: name.into(),
        role: role.into(),
        identity: FaceIdentity::new(kind, id),
    }
}

#[test]
fn heuristic_identities_are_never_preserved() {
    let previous = [region(
        "inlet",
        "inlet",
        FaceIdentityKind::HeuristicIndex,
        "component-0",
    )];
    let next = [region(
        "inlet",
        "inlet",
        FaceIdentityKind::HeuristicIndex,
        "component-0",
    )];
    let report = diff_named_region_identities(&previous, &next);
    assert!(report.has_ambiguous());
    assert!(validate_region_remap_for_evidence(&report)
        .unwrap_err()
        .contains("ambiguous"));
}

#[test]
fn bridge_face_ids_preserve_across_reimport() {
    let previous = [region(
        "wall",
        "wall",
        FaceIdentityKind::BridgeFaceId,
        "face:17",
    )];
    let next = [region(
        "wall",
        "wall",
        FaceIdentityKind::BridgeFaceId,
        "face:17",
    )];
    let report = diff_named_region_identities(&previous, &next);
    assert_eq!(report.entries.len(), 1);
    assert_eq!(report.entries[0].class, RemapClass::Preserved);
    validate_region_remap_for_evidence(&report).unwrap();
}

#[test]
fn duplicate_stable_ids_are_ambiguous() {
    let previous = [region("a", "wall", FaceIdentityKind::StepEntityId, "#42")];
    let next = [
        region("a", "wall", FaceIdentityKind::StepEntityId, "#42"),
        region("b", "wall", FaceIdentityKind::StepEntityId, "#42"),
    ];
    let report = diff_named_region_identities(&previous, &next);
    assert!(report.has_ambiguous());
}

#[test]
fn removed_assigned_region_fails_closed() {
    let previous = [region(
        "inlet",
        "inlet",
        FaceIdentityKind::StepAdvancedFaceName,
        "INLET_FACE",
    )];
    let report = diff_named_region_identities(&previous, &[]);
    assert!(validate_region_remap_for_evidence(&report)
        .unwrap_err()
        .contains("disappeared"));
}

#[test]
fn evidence_assignment_rejects_absent_identity() {
    let identity = FaceIdentity::new(FaceIdentityKind::Absent, "");
    assert!(validate_assignment_identity(&identity)
        .unwrap_err()
        .contains("persistent CAD face identity"));
}

#[test]
fn kinds_have_names_and_only_three_are_safe() {
    let kinds = [
        (FaceIdentityKind::Absent, "absent", false),
        (FaceIdentityKind::HeuristicIndex, "heuristic_index", false),
        (FaceIdentityKind::StepEntityId, "step_entity_id", true),
        (FaceIdentityKind::StepAdvancedFaceName, "step_advanced_face_name", true),
        (FaceIdentityKind::BridgeFaceId, "bridge_face_id", true),
    ];
    for (kind, name, safe) in kinds {
        assert_eq!(kind.as_str(), name);
        assert_eq!(kind.is_evidence_safe(), safe);
        assert_eq!(FaceIdentity::new(kind, "x").is_evidence_safe(), safe);
        assert!(!FaceIdentity::new(kind, " \u{2003}").is_evidence_safe());
    }
    assert_eq!(FaceIdentityKind::default(), FaceIdentityKind::Absent);
    let index = FaceIdentity::heuristic_index(120);
    assert_eq!(index.stable_id, "component-120");
    assert_eq!(index.kind, FaceIdentityKind::HeuristicIndex);
    assert_eq!(index.signature, None);
}

#[test]
fn renamed_regions_are_changed_and_new_ones_added() {
    let previous = [region("wall", "wall", FaceIdentityKind::BridgeFaceId, "face:1")];
    let next = [
        region("intake", "inlet", FaceIdentityKind::BridgeFaceId, "face:2"),
        region("wall", "moving wall", FaceIdentityKind::BridgeFaceId, "face:1"),
    ];
    let report = diff_named_region_identities(&previous, &next);
    assert_eq!(report.entries.len(), 2);
    assert_eq!(report.entries[0].class, RemapClass::Changed);
    assert_eq!(
        report.entries[0].detail,
        "stable face identity preserved but label/role changed (wall / wall → wall / moving wall)"
    );
    assert_eq!(report.entries[0].next_id.as_deref(), Some("face:1"));
    assert_eq!(report.entries[1].class, RemapClass::Added);
    assert_eq!(report.entries[1].name, "intake");
    assert_eq!(report.entries[1].previous_id, None);
    assert_eq!(report.entries[1].detail, "new stable face identity after reimport");
    assert_eq!(validate_region_remap_for_evidence(&report), Ok(()));
}

#[test]
fn remap_refusals_name_their_regions() {
    let previous = [
        region("in", "inlet", FaceIdentityKind::StepEntityId, "#1"),
        region("note", "", FaceIdentityKind::StepEntityId, "#2"),
        region("out", "outlet", FaceIdentityKind::StepEntityId, "#3"),
    ];
    let gone = diff_named_region_identities(&previous, &[]);
    assert!(gone.has_removed_assigned() && !gone.has_ambiguous());
    assert_eq!(
        validate_region_remap_for_evidence(&gone).unwrap_err(),
        "CAD face identity for assigned region(s) [in, out] disappeared on reimport; \
         refuse silent remap"
    );
    let shared = diff_named_region_identities(
        &previous[..1],
        &[
            region("a", "", FaceIdentityKind::StepEntityId, "#1"),
            region("b", "", FaceIdentityKind::StepEntityId, "#1"),
            region("c", "", FaceIdentityKind::Absent, ""),
        ],
    );
    assert_eq!(
        validate_region_remap_for_evidence(&shared).unwrap_err(),
        "CAD face identity remap is ambiguous; boundary assignments were not updated \
         (2 faces share stable id #1; refusing silent remap; \
         new identity kind absent is not evidence-safe)"
    );
    let unassigned = diff_named_region_identities(&previous[1..2], &[]);
    assert_eq!(validate_region_remap_for_evidence(&unassigned), Ok(()));
}

#[test]
fn unsafe_previous_identities_are_refused_by_kind() {
    let previous = [region("a", "wall", FaceIdentityKind::Absent, "id")];
    let report = diff_named_region_identities(&previous, &[]);
    assert_eq!(
        report.entries[0].detail,
        "previous identity kind absent is not evidence-safe; refusing silent remap"
    );
    assert_eq!(report.entries[0].previous_id.as_deref(), Some("id"));
    assert_eq!(
        validate_assignment_identity(&FaceIdentity::new(FaceIdentityKind::StepEntityId, "")),
        Err("region assignment requires a persistent CAD face identity; got step_entity_id \
             (empty id)"
            .to_owned())
    );
    assert_eq!(
        validate_assignment_identity(&FaceIdentity::heuristic_index(4)),
        Err("region assignment requires a persistent CAD face identity; got heuristic_index \
             (component-4)"
            .to_owned())
    );
    assert_eq!(
        validate_assignment_identity(&FaceIdentity::new(FaceIdentityKind::BridgeFaceId, "f")),
        Ok(())
    );
}

#[test]
fn a_consumed_face_is_not_matched_twice() {
    let twin = || region("a", "wall", FaceIdentityKind::StepEntityId, "#7");
    let report = diff_named_region_identities(&[twin(), twin()], &[twin()]);
    assert_eq!(report.entries[0].class, RemapClass::Preserved);
    assert_eq!(report.entries[1].class, RemapClass::Removed);
    assert_eq!(report.entries.len(), 2);
}

#[test]
fn the_order_of_reimported_regions_does_not_matter() {
    let a = || region("a", "wall", FaceIdentityKind::StepEntityId, "#1");
    let b = || region("b", "inlet", FaceIdentityKind::StepEntityId, "#2");
    let forward = diff_named_region_identities(&[a(), b()], &[a(), b()]);
    let backward = diff_named_region_identities(&[a(), b()], &[b(), a()]);
    assert_eq!(forward, backward);
    assert!(forward.entries.iter().all(|entry| entry.class == RemapClass::Preserved));
}
