//! The scene grammar's dispatch: which kind of camera, light,
//! material, primitive or transform step a scene file's `Type` string
//! names. The readers of the scene file hand the strings in and build
//! the named objects from the plain values around them.

use vstd::prelude::*;

verus! {

/// The three material kinds of the renderer.
#[derive(Clone, Copy, PartialEq, Eq, Structural, Debug)]
pub enum MaterialType {
    DIFFUSE,
    SPECULAR,
    REFRACTION,
}

/// The light kinds the scene grammar names. A half-sphere light is a
/// cone light whose half-angle is a quarter turn.
#[derive(Clone, Copy, PartialEq, Eq, Structural, Debug)]
pub enum LightKind {
    Sphere,
    Cone,
    HalfSphere,
    DirectionCircle,
}

/// The primitive kinds the scene grammar names.
#[derive(Clone, Copy, PartialEq, Eq, Structural, Debug)]
pub enum ObjectKind {
    Group,
    Plane,
    Triangle,
    Sphere,
    Transform,
    Mesh,
}

/// The camera kinds the scene grammar names.
#[derive(Clone, Copy, PartialEq, Eq, Structural, Debug)]
pub enum CameraKind {
    Perspective,
    DoF,
}

/// The transform steps the scene grammar names, composed left to
/// right under a `Transform` primitive.
#[derive(Clone, Copy, PartialEq, Eq, Structural, Debug)]
pub enum StepKind {
    Scale,
    UniformScale,
    Translate,
    XRotate,
    YRotate,
    ZRotate,
}

/// Whether two strings hold the same characters.
fn str_eq(a: &str, b: &str) -> (r: bool)
    ensures
        r == (a@ == b@),
{
    let oa = a.to_owned();
    let ob = b.to_owned();
    oa == ob
}

/// The material kind a `Type` string names: exactly `"DIFF"`,
/// `"SPEC"` and `"REFR"` are accepted.
pub fn parse_material_type(s: &str) -> (t: Option<MaterialType>)
    ensures
        t == Some(MaterialType::DIFFUSE) <==> s@ == "DIFF"@,
        t == Some(MaterialType::SPECULAR) <==> s@ == "SPEC"@,
        t == Some(MaterialType::REFRACTION) <==> s@ == "REFR"@,
        t is None <==> s@ != "DIFF"@ && s@ != "SPEC"@ && s@ != "REFR"@,
{
    proof {
        reveal_strlit("DIFF");
        reveal_strlit("SPEC");
        reveal_strlit("REFR");
        assert("DIFF"@ != "SPEC"@ && "DIFF"@ != "REFR"@ && "SPEC"@ != "REFR"@) by {
            assert("DIFF"@[0] == 'D' && "SPEC"@[0] == 'S' && "REFR"@[0] == 'R');
        }
    }
    if str_eq(s, "DIFF") {
        Some(MaterialType::DIFFUSE)
    } else if str_eq(s, "SPEC") {
        Some(MaterialType::SPECULAR)
    } else if str_eq(s, "REFR") {
        Some(MaterialType::REFRACTION)
    } else {
        None
    }
}

/// The light kind a `Type` string names: exactly `"SphereLight"`,
/// `"ConeLight"`, `"HalfSphereLight"` and `"DirectionCircleLight"`
/// are accepted.
pub fn parse_light_type(s: &str) -> (t: Option<LightKind>)
    ensures
        t == Some(LightKind::Sphere) <==> s@ == "SphereLight"@,
        t == Some(LightKind::Cone) <==> s@ == "ConeLight"@,
        t == Some(LightKind::HalfSphere) <==> s@ == "HalfSphereLight"@,
        t == Some(LightKind::DirectionCircle) <==> s@ == "DirectionCircleLight"@,
        t is None <==> s@ != "SphereLight"@ && s@ != "ConeLight"@ && s@ != "HalfSphereLight"@
            && s@ != "DirectionCircleLight"@,
{
    proof {
        reveal_strlit("SphereLight");
        reveal_strlit("ConeLight");
        reveal_strlit("HalfSphereLight");
        reveal_strlit("DirectionCircleLight");
        assert("SphereLight"@.len() == 11 && "ConeLight"@.len() == 9 && "HalfSphereLight"@.len()
            == 15 && "DirectionCircleLight"@.len() == 20);
    }
    if str_eq(s, "SphereLight") {
        Some(LightKind::Sphere)
    } else if str_eq(s, "ConeLight") {
        Some(LightKind::Cone)
    } else if str_eq(s, "HalfSphereLight") {
        Some(LightKind::HalfSphere)
    } else if str_eq(s, "DirectionCircleLight") {
        Some(LightKind::DirectionCircle)
    } else {
        None
    }
}

/// The primitive kind a `Type` string names: exactly `"Group"`,
/// `"Plane"`, `"Triangle"`, `"Sphere"`, `"Transform"` and `"Mesh"`
/// are accepted.
pub fn parse_object_type(s: &str) -> (t: Option<ObjectKind>)
    ensures
        t == Some(ObjectKind::Group) <==> s@ == "Group"@,
        t == Some(ObjectKind::Plane) <==> s@ == "Plane"@,
        t == Some(ObjectKind::Triangle) <==> s@ == "Triangle"@,
        t == Some(ObjectKind::Sphere) <==> s@ == "Sphere"@,
        t == Some(ObjectKind::Transform) <==> s@ == "Transform"@,
        t == Some(ObjectKind::Mesh) <==> s@ == "Mesh"@,
        t is None <==> s@ != "Group"@ && s@ != "Plane"@ && s@ != "Triangle"@ && s@ != "Sphere"@
            && s@ != "Transform"@ && s@ != "Mesh"@,
{
    proof {
        reveal_strlit("Group");
        reveal_strlit("Plane");
        reveal_strlit("Triangle");
        reveal_strlit("Sphere");
        reveal_strlit("Transform");
        reveal_strlit("Mesh");
        assert("Group"@.len() == 5 && "Plane"@.len() == 5 && "Triangle"@.len() == 8
            && "Sphere"@.len() == 6 && "Transform"@.len() == 9 && "Mesh"@.len() == 4);
        assert("Group"@ != "Plane"@) by {
            assert("Group"@[0] == 'G' && "Plane"@[0] == 'P');
        }
    }
    if str_eq(s, "Group") {
        Some(ObjectKind::Group)
    } else if str_eq(s, "Plane") {
        Some(ObjectKind::Plane)
    } else if str_eq(s, "Triangle") {
        Some(ObjectKind::Triangle)
    } else if str_eq(s, "Sphere") {
        Some(ObjectKind::Sphere)
    } else if str_eq(s, "Transform") {
        Some(ObjectKind::Transform)
    } else if str_eq(s, "Mesh") {
        Some(ObjectKind::Mesh)
    } else {
        None
    }
}

/// The camera kind a `Type` string names: exactly `"Perspective"`
/// and `"DoF"` are accepted.
pub fn parse_camera_type(s: &str) -> (t: Option<CameraKind>)
    ensures
        t == Some(CameraKind::Perspective) <==> s@ == "Perspective"@,
        t == Some(CameraKind::DoF) <==> s@ == "DoF"@,
        t is None <==> s@ != "Perspective"@ && s@ != "DoF"@,
{
    proof {
        reveal_strlit("Perspective");
        reveal_strlit("DoF");
        assert("Perspective"@.len() == 11 && "DoF"@.len() == 3);
    }
    if str_eq(s, "Perspective") {
        Some(CameraKind::Perspective)
    } else if str_eq(s, "DoF") {
        Some(CameraKind::DoF)
    } else {
        None
    }
}

/// The transform step a `Type` string names: exactly `"Scale"`,
/// `"UniformScale"`, `"Translate"`, `"XRotate"`, `"YRotate"` and
/// `"ZRotate"` are accepted.
pub fn parse_step_type(s: &str) -> (t: Option<StepKind>)
    ensures
        t == Some(StepKind::Scale) <==> s@ == "Scale"@,
        t == Some(StepKind::UniformScale) <==> s@ == "UniformScale"@,
        t == Some(StepKind::Translate) <==> s@ == "Translate"@,
        t == Some(StepKind::XRotate) <==> s@ == "XRotate"@,
        t == Some(StepKind::YRotate) <==> s@ == "YRotate"@,
        t == Some(StepKind::ZRotate) <==> s@ == "ZRotate"@,
        t is None <==> s@ != "Scale"@ && s@ != "UniformScale"@ && s@ != "Translate"@ && s@
            != "XRotate"@ && s@ != "YRotate"@ && s@ != "ZRotate"@,
{
    proof {
        reveal_strlit("Scale");
        reveal_strlit("UniformScale");
        reveal_strlit("Translate");
        reveal_strlit("XRotate");
        reveal_strlit("YRotate");
        reveal_strlit("ZRotate");
        assert("Scale"@.len() == 5 && "UniformScale"@.len() == 12 && "Translate"@.len() == 9
            && "XRotate"@.len() == 7 && "YRotate"@.len() == 7 && "ZRotate"@.len() == 7);
        assert("XRotate"@ != "YRotate"@ && "XRotate"@ != "ZRotate"@ && "YRotate"@ != "ZRotate"@)
            by {
            assert("XRotate"@[0] == 'X' && "YRotate"@[0] == 'Y' && "ZRotate"@[0] == 'Z');
        }
    }
    if str_eq(s, "Scale") {
        Some(StepKind::Scale)
    } else if str_eq(s, "UniformScale") {
        Some(StepKind::UniformScale)
    } else if str_eq(s, "Translate") {
        Some(StepKind::Translate)
    } else if str_eq(s, "XRotate") {
        Some(StepKind::XRotate)
    } else if str_eq(s, "YRotate") {
        Some(StepKind::YRotate)
    } else if str_eq(s, "ZRotate") {
        Some(StepKind::ZRotate)
    } else {
        None
    }
}

} // verus!

