//! Laying the gallery out into the output tree: page data projections,
//! output paths, and thumbnail planning.  Writing files, rendering templates
//! and encoding images happen outside the library.

pub mod html;
pub mod thumbnail;

use vstd::prelude::*;

verus! {

use crate::error::GalleryError;
use crate::input::index_file_name;
use crate::model::Collection;
use crate::text::is_single_component;
use crate::text::path_join;
use crate::webpath::web_path_of;

/// Where a run reads from and writes to.
#[derive(Debug)]
pub struct Config {
    /// The directory which contains the gallery.
    pub input_path: String,
    /// The target directory where the gallery is written.
    pub output_path: String,
    /// The directory which contains the templates and stylesheets.
    pub resources_path: String,
}

/// The command-line surface: an input, an output and a resources directory.
#[derive(Debug)]
pub struct Cli {
    /// The gallery: the directory containing the albums.
    pub input: String,
    /// The output directory.
    pub output: String,
    /// The resources directory.
    pub resources: String,
}

impl Cli {
    /// The output configuration these arguments name.
    pub fn output_config(&self) -> (r: Config)
        ensures
            r.input_path@ == self.input@,
            r.output_path@ == self.output@,
            r.resources_path@ == self.resources@,
    {
        Config {
            input_path: self.input.clone(),
            output_path: self.output.clone(),
            resources_path: self.resources.clone(),
        }
    }
}

/// Where a source file of a collection is copied to: under
/// `data/albums/<collection slug>/`, keeping the file's original name.
pub fn album_file_path(config: &Config, coll: &Collection, file_name: &String) -> (r: Result<
    String,
    GalleryError,
>)
    ensures
        match r {
            Ok(t) => {
                &&& is_single_component(coll.path@)
                &&& t@ == config.output_path@ + seq!['/'] + "data"@ + seq!['/'] + "albums"@
                    + seq!['/'] + web_path_of(coll.path@) + seq!['/'] + file_name@
            },
            Err(e) => {
                &&& !is_single_component(coll.path@)
                &&& e matches GalleryError::InvalidPathShape { path: p } && p@ == coll.path@
            },
        },
{
    let slug = match coll.url() {
        Ok(t) => t,
        Err(e) => {
            return Err(e);
        },
    };
    let d = path_join(config.output_path.as_str(), "data");
    let d = path_join(d.as_str(), "albums");
    let d = path_join(d.as_str(), slug.as_str());
    let r = path_join(d.as_str(), file_name.as_str());
    proof {
        assert(r@ =~= config.output_path@ + seq!['/'] + "data"@ + seq!['/'] + "albums"@
            + seq!['/'] + web_path_of(coll.path@) + seq!['/'] + file_name@);
    }
    Ok(r)
}

/// Where a collection's metadata descriptor sits in the source tree.
pub fn descriptor_source_path(config: &Config, coll: &Collection) -> (r: String)
    ensures
        r@ == config.input_path@ + seq!['/'] + coll.path@ + seq!['/'] + "collection-info.zm"@,
{
    let d = path_join(config.input_path.as_str(), coll.path.as_str());
    let r = path_join(d.as_str(), index_file_name());
    proof {
        assert(r@ =~= config.input_path@ + seq!['/'] + coll.path@ + seq!['/']
            + "collection-info.zm"@);
    }
    r
}

} // verus!
