use sayo_pbr_rs::integrators::baseintegrator::Integrators;
use sayo_pbr_rs::SceneConfig;

fn scene(integrator: &str) -> Integrators {
    SceneConfig::construct_scene("scenes/a.toml".to_string(), integrator, "out.pfm").0.integrator
}

#[test]
fn integrator_is_chosen_by_its_name() {
    assert_eq!(scene("direct_lighting"), Integrators::DirectLighting);
    assert_eq!(scene("path_tracer_bsdf"), Integrators::PathTracerBsdf);
    assert_eq!(scene("path_tracer_nee"), Integrators::PathTracerNee);
}

#[test]
fn integrator_name_may_be_in_any_case() {
    assert_eq!(scene("Path_Tracer_BSDF"), Integrators::PathTracerBsdf);
    assert_eq!(scene("PATH_TRACER_NEE"), Integrators::PathTracerNee);
    assert_eq!(scene("DIRECT_LIGHTING"), Integrators::DirectLighting);
}

#[test]
fn unknown_integrator_stands_for_direct_lighting() {
    assert_eq!(scene("photon_mapping"), Integrators::DirectLighting);
    assert_eq!(scene(""), Integrators::DirectLighting);
    assert_eq!(scene("path_tracer_nee "), Integrators::DirectLighting);
    assert_eq!(scene("path_tracer_bsd"), Integrators::DirectLighting);
    assert_eq!(scene("path_tracer_n\u{e9}e"), Integrators::DirectLighting);
}

#[test]
fn image_goes_below_the_sandbox_directory() {
    let (_, names) = SceneConfig::construct_scene("scenes/teapot/teapot.toml".to_string(), "direct_lighting", "teapot.pfm");
    assert_eq!(names.scene_file_name, "scenes/teapot/teapot.toml");
    assert_eq!(names.out_file, "sandbox/teapot.pfm");
    let (_, empty) = SceneConfig::construct_scene(String::new(), "x", "");
    assert_eq!(empty.out_file, "sandbox/");
}
