//! Validation of a 3MF model against the rules of the core specification and
//! its extensions.
//!
//! Each `validate_*` function checks one group of rules and reports the first
//! broken rule in document order.  Its contract names a spec function that
//! says, for every model, which violation (if any) that is.
pub mod beams;
pub mod boolean;
pub mod displacement;
pub mod extension_properties;
pub mod materials;
pub mod meanings;
pub mod measures;
pub mod production;
pub mod properties;
pub mod resources;
pub mod slices;
pub mod structure;
pub mod volumetric;

pub use crate::ids::sorted_ids_from_set;
pub use beams::validate_beam_lattice;
pub use boolean::validate_boolean_operations;
pub use materials::{
    get_property_resource_size, validate_color_formats, validate_material_references,
    validate_multiproperties_references, validate_object_triangle_materials,
    validate_texture_paths, validate_triangle_properties,
};
pub use production::{
    validate_component_chain, validate_duplicate_uuids, validate_production_extension,
    validate_production_extension_with_config, validate_production_paths,
    validate_production_uuids_required, validate_uuid_formats,
};
pub use resources::{validate_duplicate_resource_ids, validate_resource_ordering};
pub use slices::{
    validate_planar_transform, validate_slice, validate_slice_extension, validate_slices,
};
pub use structure::{
    detect_circular_components, validate_build_references, validate_component_properties,
    validate_component_references, validate_mesh_geometry, validate_mesh_manifold,
    validate_object_ids, validate_required_extensions, validate_required_structure,
};
pub use displacement::{
    corner_normal, geometry_fits, geometry_matches, validate_displacement_extension,
    DisplacementGeometry,
    MeshGeometry,
};
pub use measures::{measures_fit, measures_match, validate_mesh_volume, validate_transform_matrices, Measures};
pub use volumetric::validate_volumetric_extension;

use crate::error::{self, Error, Kind};
use crate::model::{Extension, Model, ParserConfig};
use displacement::displacement_finding;
use materials::{
    color_formats_finding, material_references_finding, multiproperties_references_finding,
    texture_paths_finding, triangle_properties_finding,
};
use measures::{mesh_volumes_finding, transforms_finding};
use production::{
    duplicate_uuids_finding, paths_finding, production_support_finding, uuid_formats_finding,
    uuids_required_finding, PathRule,
};
use resources::{duplicate_resource_ids_finding, resource_ordering_finding};
use structure::{
    build_references_finding, component_properties_finding, component_references_finding,
    mesh_geometry_finding, object_ids_finding, required_extensions_finding,
    required_structure_finding,
};
use vstd::prelude::*;

verus! {

/// The rules on the structure of the model and on each extension, in the
/// order in which they are checked.
pub open spec fn structure_stage_finding(m: Model, supported: Seq<Extension>, meas: Measures) -> error::Finding {
    error::either(
        required_structure_finding(m),
        error::either(
            object_ids_finding(m),
            error::either(
                mesh_geometry_finding(m),
                error::either(
                    build_references_finding(m),
                    error::either(
                        material_references_finding(m),
                        error::either(
                            required_extensions_finding(m),
                            error::either(
                                boolean::boolean_operations_finding(m),
                                error::either(
                                    component_references_finding(m),
                                    error::either(
                                        production_support_finding(m, supported),
                                        error::either(
                                            displacement_finding(m, meas.displacement),
                                            error::either(
                                                slices::slices_finding(m),
                                                error::either(
                                                    slices::slice_extension_finding(m),
                                                    beams::beam_lattice_finding(m),
                                                ),
                                            ),
                                        ),
                                    ),
                                ),
                            ),
                        ),
                    ),
                ),
            ),
        ),
    )
}

/// The rules on materials, production data, transforms, resource order and
/// meshes that follow, in the order in which they are checked.
pub open spec fn consistency_stage_finding(m: Model, meas: Measures) -> error::Finding {
    error::either(
        texture_paths_finding(m),
        error::either(
            color_formats_finding(m),
            error::either(
                uuid_formats_finding(m),
                error::either(
                    paths_finding(PathRule::Opc, m),
                    error::either(
                        transforms_finding(m, meas),
                        error::either(
                            resource_ordering_finding(m),
                            error::either(
                                duplicate_resource_ids_finding(m),
                                error::either(
                                    multiproperties_references_finding(m),
                                    error::either(
                                        triangle_properties_finding(m),
                                        error::either(
                                            uuids_required_finding(m),
                                            error::either(
                                                mesh_volumes_finding(m, meas),
                                                error::either(
                                                    component_properties_finding(m),
                                                    duplicate_uuids_finding(m),
                                                ),
                                            ),
                                        ),
                                    ),
                                ),
                            ),
                        ),
                    ),
                ),
            ),
        ),
    )
}

/// Everything that validation checks, in order: the first broken rule.
pub open spec fn model_finding(m: Model, supported: Seq<Extension>, meas: Measures) -> error::Finding {
    error::either(structure_stage_finding(m, supported, meas), consistency_stage_finding(m, meas))
}

/// Every extension this crate knows, in the order `ParserConfig::with_all_extensions` lists them.
pub open spec fn all_extensions() -> Seq<Extension> {
    seq![
        Extension::Core,
        Extension::Material,
        Extension::Production,
        Extension::Slice,
        Extension::BeamLattice,
        Extension::SecureContent,
        Extension::BooleanOperations,
        Extension::Displacement,
        Extension::Volumetric,
    ]
}

/// The checks on the structure of the model and on each extension, which
/// validation runs first.
pub fn validate_structure_stage(model: &Model, config: &ParserConfig, measures: &Measures) -> (r:
    Result<(), Error>)
    requires
        measures_fit(*model, *measures),
    ensures
        error::reports(r, structure_stage_finding(*model, config.supported_extensions@, *measures)),
{
    let r = validate_required_structure(model);
    if r.is_err() {
        return r;
    }
    let r = validate_object_ids(model);
    if r.is_err() {
        return r;
    }
    let r = validate_mesh_geometry(model);
    if r.is_err() {
        return r;
    }
    let r = validate_build_references(model);
    if r.is_err() {
        return r;
    }
    let r = validate_material_references(model);
    if r.is_err() {
        return r;
    }
    let r = validate_required_extensions(model);
    if r.is_err() {
        return r;
    }
    let r = validate_boolean_operations(model);
    if r.is_err() {
        return r;
    }
    let r = validate_component_references(model);
    if r.is_err() {
        return r;
    }
    let r = validate_production_extension_with_config(model, config);
    if r.is_err() {
        return r;
    }
    let r = validate_displacement_extension(model, &measures.displacement);
    if r.is_err() {
        return r;
    }
    let r = validate_slices(model);
    if r.is_err() {
        return r;
    }
    let r = validate_slice_extension(model);
    if r.is_err() {
        return r;
    }
    validate_beam_lattice(model)
}

/// The checks on materials, production data, transforms, resource order and
/// meshes, which validation runs second.
pub fn validate_consistency_stage(model: &Model, measures: &Measures) -> (r: Result<(), Error>)
    requires
        measures_fit(*model, *measures),
    ensures
        error::reports(r, consistency_stage_finding(*model, *measures)),
{
    let r = validate_texture_paths(model);
    if r.is_err() {
        return r;
    }
    let r = validate_color_formats(model);
    if r.is_err() {
        return r;
    }
    let r = validate_uuid_formats(model);
    if r.is_err() {
        return r;
    }
    let r = validate_production_paths(model);
    if r.is_err() {
        return r;
    }
    let r = validate_transform_matrices(model, measures);
    if r.is_err() {
        return r;
    }
    let r = validate_resource_ordering(model);
    if r.is_err() {
        return r;
    }
    let r = validate_duplicate_resource_ids(model);
    if r.is_err() {
        return r;
    }
    let r = validate_multiproperties_references(model);
    if r.is_err() {
        return r;
    }
    let r = validate_triangle_properties(model);
    if r.is_err() {
        return r;
    }
    let r = validate_production_uuids_required(model);
    if r.is_err() {
        return r;
    }
    let r = validate_thumbnail_format(model);
    if r.is_err() {
        return r;
    }
    let r = validate_mesh_volume(model, measures);
    if r.is_err() {
        return r;
    }
    let r = validate_vertex_order(model);
    if r.is_err() {
        return r;
    }
    let r = validate_thumbnail_jpeg_colorspace(model);
    if r.is_err() {
        return r;
    }
    let r = validate_dtd_declaration(model);
    if r.is_err() {
        return r;
    }
    let r = validate_component_properties(model);
    if r.is_err() {
        return r;
    }
    let r = validate_duplicate_uuids(model);
    if r.is_err() {
        return r;
    }
    validate_component_chain(model)
}

/// Validates the model with a configuration that supports every extension.
pub fn validate_model(model: &Model, measures: &Measures) -> (r: Result<(), Error>)
    requires
        measures_fit(*model, *measures),
    ensures
        error::reports(r, model_finding(*model, all_extensions(), *measures)),
{
    validate_model_with_config(model, &ParserConfig::with_all_extensions(), measures)
}

/// Validates the model: the rules of the core specification and of the
/// extensions, the production rules under `config`, and the measured
/// geometry in `measures`.  The first broken rule is reported.
pub fn validate_model_with_config(model: &Model, config: &ParserConfig, measures: &Measures) -> (r:
    Result<(), Error>)
    requires
        measures_fit(*model, *measures),
    ensures
        error::reports(r, model_finding(*model, config.supported_extensions@, *measures)),
{
    let r = validate_structure_stage(model, config, measures);
    if r.is_err() {
        return r;
    }
    validate_consistency_stage(model, measures)
}

/// What the caller's `i`-th validation handler reported: nothing where it
/// returned `Ok`, else a custom validation failure with its reason.
pub open spec fn handler_check(results: Seq<Result<(), String>>) -> spec_fn(int) -> error::Finding {
    |i: int|
        match results[i] {
            Ok(_) => None,
            Err(reason) => error::found_text(Kind::CustomValidationFailed, reason@),
        }
}

/// The first failure among the results of the caller's handlers, in the
/// order in which they ran.
pub open spec fn handlers_finding(results: Seq<Result<(), String>>) -> error::Finding {
    error::first(results.len() as int, handler_check(results))
}

/// Reports the first failure among the results of the caller's validation
/// handlers as a custom validation failure, with the handler's reason.
pub fn validate_handler_results(results: &Vec<Result<(), String>>) -> (r: Result<(), Error>)
    ensures
        error::reports(r, handlers_finding(results@)),
{
    let n = results.len();
    let mut i: usize = 0;
    while i < n
        invariant
            n == results@.len(),
            i <= n,
            handlers_finding(results@) == error::first_from(n as int, handler_check(results@), i as int),
        decreases n - i,
    {
        if let Err(reason) = &results[i] {
            return error::fail_text(Kind::CustomValidationFailed, reason.clone());
        }
        i += 1;
    }
    Ok(())
}

/// What running the caller's validation `handlers` on `model` gave: one
/// result per handler run, in order, each one that handler's; every run but
/// the last succeeded, and running stopped early only at a failure.
pub open spec fn handlers_ran<F: Fn(&Model) -> Result<(), String>>(
    model: Model,
    handlers: Seq<F>,
    results: Seq<Result<(), String>>,
) -> bool {
    &&& results.len() <= handlers.len()
    &&& forall|i: int| 0 <= i < results.len() ==> call_ensures(handlers[i], (&model,), #[trigger] results[i])
    &&& forall|i: int| 0 <= i < results.len() - 1 ==> #[trigger] results[i] is Ok
    &&& results.len() < handlers.len() ==> results.len() > 0 && results[results.len() - 1] is Err
}

/// Runs the caller's validation handlers on the model, in order, up to the
/// first that fails.
pub fn run_handlers<F: Fn(&Model) -> Result<(), String>>(model: &Model, handlers: &Vec<F>) -> (results: Vec<
    Result<(), String>,
>)
    requires
        forall|i: int| 0 <= i < handlers@.len() ==> call_requires(#[trigger] handlers@[i], (model,)),
    ensures
        handlers_ran(*model, handlers@, results@),
{
    let mut results: Vec<Result<(), String>> = Vec::new();
    let mut i: usize = 0;
    while i < handlers.len()
        invariant
            i <= handlers@.len(),
            results@.len() == i,
            forall|j: int| 0 <= j < handlers@.len() ==> call_requires(#[trigger] handlers@[j], (model,)),
            forall|j: int| 0 <= j < i ==> call_ensures(handlers@[j], (model,), #[trigger] results@[j]),
            forall|j: int| 0 <= j < i ==> #[trigger] results@[j] is Ok,
        decreases handlers@.len() - i,
    {
        let h = &handlers[i];
        let r = h(model);
        let failed = r.is_err();
        results.push(r);
        if failed {
            return results;
        }
        i += 1;
    }
    results
}

/// Validation with the caller's handlers: the structural checks, then the
/// handlers' results, then the consistency checks; the first failure.
pub open spec fn handled_model_finding(
    m: Model,
    supported: Seq<Extension>,
    meas: Measures,
    results: Seq<Result<(), String>>,
) -> error::Finding {
    error::either(
        structure_stage_finding(m, supported, meas),
        error::either(handlers_finding(results), consistency_stage_finding(m, meas)),
    )
}

/// Validates the model under `config` with the caller's validation
/// handlers: the structural checks; where they pass, the handlers run in
/// order up to the first that fails, whose failure is reported as a custom
/// validation failure; then the consistency checks.  Where the structural
/// checks fail, that is reported and no handler runs.
pub fn validate_model_with_handlers<F: Fn(&Model) -> Result<(), String>>(
    model: &Model,
    config: &ParserConfig,
    measures: &Measures,
    handlers: &Vec<F>,
) -> (r: Result<(), Error>)
    requires
        measures_fit(*model, *measures),
        forall|i: int| 0 <= i < handlers@.len() ==> call_requires(#[trigger] handlers@[i], (model,)),
    ensures
        structure_stage_finding(*model, config.supported_extensions@, *measures) is Some
            ==> error::reports(r, structure_stage_finding(*model, config.supported_extensions@, *measures)),
        structure_stage_finding(*model, config.supported_extensions@, *measures) is None
            ==> exists|results: Seq<Result<(), String>>|
            #[trigger] handlers_ran(*model, handlers@, results) && error::reports(
                r,
                handled_model_finding(*model, config.supported_extensions@, *measures, results),
            ),
{
    let r = validate_structure_stage(model, config, measures);
    if r.is_err() {
        return r;
    }
    let results = run_handlers(model, handlers);
    let r = validate_handler_results(&results);
    proof {
        assert(handlers_ran(*model, handlers@, results@));
    }
    if r.is_err() {
        return r;
    }
    validate_consistency_stage(model, measures)
}

/// Where no handler failed, validation with handlers finds what validation
/// without them finds; where one failed and the structural checks pass, its
/// failure is what is reported.
pub proof fn lemma_handlers_between_stages(
    m: Model,
    supported: Seq<Extension>,
    meas: Measures,
    results: Seq<Result<(), String>>,
)
    ensures
        (forall|i: int| 0 <= i < results.len() ==> #[trigger] results[i] is Ok)
            ==> handled_model_finding(m, supported, meas, results) == model_finding(m, supported, meas),
        structure_stage_finding(m, supported, meas) is None && handlers_finding(results) is Some
            ==> handled_model_finding(m, supported, meas, results) == handlers_finding(results),
{
    error::lemma_first_none(results.len() as int, handler_check(results));
    if forall|i: int| 0 <= i < results.len() ==> #[trigger] results[i] is Ok {
        assert forall|k: int| 0 <= k < results.len() implies (#[trigger] handler_check(results)(k)) is None by {
            assert(results[k] is Ok);
        }
    }
}

/// Validates the model under `config` where the caller's validation handlers
/// returned `results` (in order, up to the first failure): the structural
/// checks, then the first handler failure, then the consistency checks.
pub fn validate_model_with_handler_results(
    model: &Model,
    config: &ParserConfig,
    measures: &Measures,
    results: &Vec<Result<(), String>>,
) -> (r: Result<(), Error>)
    requires
        measures_fit(*model, *measures),
    ensures
        error::reports(
            r,
            handled_model_finding(*model, config.supported_extensions@, *measures, results@),
        ),
{
    let r = validate_structure_stage(model, config, measures);
    if r.is_err() {
        return r;
    }
    let r = validate_handler_results(results);
    if r.is_err() {
        return r;
    }
    validate_consistency_stage(model, measures)
}

/// Thumbnails are checked where their bytes are read; nothing here breaks a rule.
pub fn validate_thumbnail_format(model: &Model) -> (r: Result<(), Error>)
    ensures
        r is Ok,
{
    Ok(())
}

/// The winding of mesh triangles is judged by the mesh volume; nothing here
/// breaks a rule.
pub fn validate_vertex_order(model: &Model) -> (r: Result<(), Error>)
    ensures
        r is Ok,
{
    Ok(())
}

/// The color space of JPEG thumbnails is checked where their bytes are read;
/// nothing here breaks a rule.
pub fn validate_thumbnail_jpeg_colorspace(model: &Model) -> (r: Result<(), Error>)
    ensures
        r is Ok,
{
    Ok(())
}

/// Document type declarations are refused by the parser; nothing here breaks
/// a rule.
pub fn validate_dtd_declaration(model: &Model) -> (r: Result<(), Error>)
    ensures
        r is Ok,
{
    Ok(())
}

} // verus!
