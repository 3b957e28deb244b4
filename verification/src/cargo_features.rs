//! The assembled tool: manifest reading, classification, rendering.

use vstd::prelude::*;

use crate::export_info::{ExportInfo, ExportInfoView};
use crate::graph::{PackageVer, PackageVerView, ResolvedGraph};
use crate::print::{pretty_print, spec_render_info, Span};
use crate::resolver::{build_export_info, spec_build_export_info, ExportError, ExportErrorView};

verus! {

/// The classified model of one invocation.
pub struct CargoFeatures {
    pub export_info: ExportInfo,
}

/// The request that selection runs with: the explicitly requested
/// package, or else the manifest's own package without a version
/// constraint.
pub open spec fn spec_effective_request(
    root_package: Option<PackageVerView>,
    manifest_name: Seq<char>,
) -> PackageVerView {
    match root_package {
        Option::Some(req) => req,
        Option::None => PackageVerView { name: manifest_name, version: Option::None },
    }
}

impl CargoFeatures {
    /// Classifies the requested package — or, absent a request, the
    /// manifest's own package — against the resolved graph.
    pub fn init(
        graph: &ResolvedGraph,
        root_package: Option<PackageVer>,
        manifest_name: String,
        deps: bool,
    ) -> (r: Result<CargoFeatures, ExportError>)
        ensures
            match r {
                Ok(cf) => spec_build_export_info(
                    graph.deep_view(),
                    spec_effective_request(root_package.deep_view(), manifest_name@),
                    deps,
                ) == Ok::<ExportInfoView, ExportErrorView>(cf.export_info.deep_view()),
                Err(e) => spec_build_export_info(
                    graph.deep_view(),
                    spec_effective_request(root_package.deep_view(), manifest_name@),
                    deps,
                ) == Err::<ExportInfoView, ExportErrorView>(e.deep_view()),
            },
    {
        let package_ver = match root_package {
            Some(package_ver) => package_ver,
            None => PackageVer { name: manifest_name, version: None },
        };
        match build_export_info(graph, package_ver, deps) {
            Ok(export_info) => Ok(CargoFeatures { export_info }),
            Err(e) => Err(e),
        }
    }

    /// The styled spans of the report, for the caller to colorize and
    /// write to a terminal.
    pub fn print(&self) -> (r: Vec<Span>)
        ensures
            r.deep_view() == spec_render_info(self.export_info.deep_view()),
    {
        pretty_print(self.export_info.duplicate())
    }
}

pub uninterp spec fn manifest_package_name(text: Seq<char>) -> Option<Seq<char>>;

pub uninterp spec fn manifest_package_version(text: Seq<char>) -> Option<Seq<char>>;

/// Relies on toml parsing (`str::parse::<toml::Value>`) and on
/// `toml::Value::get` and `toml::Value::as_str`: the `package.name` and
/// `package.version` strings found in a manifest text are functions of
/// that text alone; `None` stands for text that does not parse or does
/// not hold them.
#[verifier::external_body]
fn manifest_fields(text: &str) -> (r: Option<(String, String)>)
    ensures
        r is Some <==> (manifest_package_name(text@) is Some && manifest_package_version(text@)
            is Some),
        r matches Some(p) ==> Some(p.0@) == manifest_package_name(text@) && Some(p.1@)
            == manifest_package_version(text@),
{
    let value: toml::Value = match text.parse::<toml::Value>() {
        Ok(value) => value,
        Err(_) => return None,
    };
    let package = value.get("package")?;
    let name = package.get("name")?.as_str()?;
    let version = package.get("version")?.as_str()?;
    Some((name.to_string(), version.to_string()))
}

/// Reads the package name and version out of a manifest text; `None` when
/// the text does not parse as a manifest or lacks either field.
pub fn parse_manifest(manifest: &str) -> (r: Option<(String, String)>)
    ensures
        r is Some <==> (manifest_package_name(manifest@) is Some && manifest_package_version(
            manifest@,
        ) is Some),
        r matches Some(p) ==> Some(p.0@) == manifest_package_name(manifest@) && Some(p.1@)
            == manifest_package_version(manifest@),
{
    manifest_fields(manifest)
}

} // verus!
