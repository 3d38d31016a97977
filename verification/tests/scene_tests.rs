use sppm::scene::{
    parse_camera_type, parse_light_type, parse_material_type, parse_object_type, parse_step_type,
    CameraKind, LightKind, MaterialType, ObjectKind, StepKind,
};

#[test]
fn material_types_accepted() {
    assert_eq!(parse_material_type("DIFF"), Some(MaterialType::DIFFUSE));
    assert_eq!(parse_material_type("SPEC"), Some(MaterialType::SPECULAR));
    assert_eq!(parse_material_type("REFR"), Some(MaterialType::REFRACTION));
}

#[test]
fn material_types_rejected() {
    assert_eq!(parse_material_type("diff"), None);
    assert_eq!(parse_material_type(""), None);
    assert_eq!(parse_material_type("DIFFUSE"), None);
}

#[test]
fn light_types_accepted() {
    assert_eq!(parse_light_type("SphereLight"), Some(LightKind::Sphere));
    assert_eq!(parse_light_type("ConeLight"), Some(LightKind::Cone));
    assert_eq!(parse_light_type("HalfSphereLight"), Some(LightKind::HalfSphere));
    assert_eq!(
        parse_light_type("DirectionCircleLight"),
        Some(LightKind::DirectionCircle)
    );
}

#[test]
fn light_type_misspelling_rejected() {
    assert_eq!(parse_light_type("SphereLiht"), None);
    assert_eq!(parse_light_type("spherelight"), None);
    assert_eq!(parse_light_type(""), None);
}

#[test]
fn object_types_accepted() {
    assert_eq!(parse_object_type("Group"), Some(ObjectKind::Group));
    assert_eq!(parse_object_type("Plane"), Some(ObjectKind::Plane));
    assert_eq!(parse_object_type("Triangle"), Some(ObjectKind::Triangle));
    assert_eq!(parse_object_type("Sphere"), Some(ObjectKind::Sphere));
    assert_eq!(parse_object_type("Transform"), Some(ObjectKind::Transform));
    assert_eq!(parse_object_type("Mesh"), Some(ObjectKind::Mesh));
}

#[test]
fn object_types_rejected() {
    assert_eq!(parse_object_type("Cube"), None);
    assert_eq!(parse_object_type("group"), None);
}

#[test]
fn camera_types_accepted_and_rejected() {
    assert_eq!(parse_camera_type("Perspective"), Some(CameraKind::Perspective));
    assert_eq!(parse_camera_type("DoF"), Some(CameraKind::DoF));
    assert_eq!(parse_camera_type("Orthographic"), None);
    assert_eq!(parse_camera_type("dof"), None);
}

#[test]
fn step_types_accepted() {
    assert_eq!(parse_step_type("Scale"), Some(StepKind::Scale));
    assert_eq!(parse_step_type("UniformScale"), Some(StepKind::UniformScale));
    assert_eq!(parse_step_type("Translate"), Some(StepKind::Translate));
    assert_eq!(parse_step_type("XRotate"), Some(StepKind::XRotate));
    assert_eq!(parse_step_type("YRotate"), Some(StepKind::YRotate));
    assert_eq!(parse_step_type("ZRotate"), Some(StepKind::ZRotate));
}

#[test]
fn step_types_rejected() {
    assert_eq!(parse_step_type("WRotate"), None);
    assert_eq!(parse_step_type("Shear"), None);
}
