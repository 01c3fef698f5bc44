//! Where the presentation layer looks for the icon of an app, and how it
//! decodes what it finds.

use crate::text::ends_with;
use vstd::prelude::*;
use vstd::string::StringExecFns;

verus! {

/// How an image file is decoded.
#[derive(Clone, Copy, Debug, PartialEq, Eq, Structural)]
pub enum ImageFormat {
    /// Vector graphics, decoded from the bytes of the file.
    Svg,
    /// Any other image, decoded by its path.
    Raster,
}

/// The format of the image at `path`, by its extension.
pub open spec fn image_format(path: Seq<char>) -> ImageFormat {
    if ".svg"@.is_suffix_of(path) {
        ImageFormat::Svg
    } else {
        ImageFormat::Raster
    }
}

/// The places of the default icon, in the order they are tried.
pub open spec fn default_icon_locations() -> Seq<Seq<char>> {
    seq!["assets/icons/default.svg"@, "icons/default.svg"@]
}

/// The places of the icon `icon_path`, in the order they are tried: the
/// path as given, below `assets/`, below `icons/`, and the place in the
/// user's icon directory where there is one.
pub open spec fn icon_locations(icon_path: Seq<char>, user_icon: Option<Seq<char>>) -> Seq<
    Seq<char>,
> {
    let fixed = seq![icon_path, "assets/"@ + icon_path, "icons/"@ + icon_path];
    match user_icon {
        Some(place) => fixed.push(place),
        None => fixed,
    }
}

/// Every place that is tried for the icon `icon_path`: its own places,
/// then those of the default icon. An empty `icon_path` names no icon, so
/// only the default icon is looked for.
pub open spec fn icon_search_order(icon_path: Seq<char>, user_icon: Option<Seq<char>>) -> Seq<
    Seq<char>,
> {
    if icon_path.len() == 0 {
        default_icon_locations()
    } else {
        icon_locations(icon_path, user_icon) + default_icon_locations()
    }
}

/// The format of the image at `path`, by its extension.
pub fn format_of(path: &str) -> (format: ImageFormat)
    ensures
        format == image_format(path@),
{
    if ends_with(path, ".svg") {
        ImageFormat::Svg
    } else {
        ImageFormat::Raster
    }
}

/// `directory` followed by `name`.
fn below(directory: &str, name: &str) -> (path: String)
    ensures
        path@ == directory@ + name@,
{
    let mut path = directory.to_owned();
    path.append(name);
    path
}

/// The places to try for the icon `icon_path`, first to last. `user_icon`
/// is the place of the icon in the user's icon directory, where the host
/// knows that directory.
pub fn icon_search_paths(icon_path: &str, user_icon: Option<&str>) -> (paths: Vec<String>)
    ensures
        paths@.map_values(|p: String| p@) == icon_search_order(
            icon_path@,
            match user_icon {
                Some(place) => Some(place@),
                None => None,
            },
        ),
{
    let mut paths: Vec<String> = Vec::new();
    if !icon_path.is_empty() {
        paths.push(icon_path.to_owned());
        paths.push(below("assets/", icon_path));
        paths.push(below("icons/", icon_path));
        match user_icon {
            Some(place) => {
                paths.push(place.to_owned());
            },
            None => {},
        }
    }
    paths.push("assets/icons/default.svg".to_owned());
    paths.push("icons/default.svg".to_owned());
    assert(paths@.map_values(|p: String| p@) =~= icon_search_order(
        icon_path@,
        match user_icon {
            Some(place) => Some(place@),
            None => None,
        },
    ));
    paths
}

} // verus!
