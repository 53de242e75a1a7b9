use vstd::prelude::*;
use vstd::string::*;

use crate::manifest::{same_text, Manifest};

verus! {

/// A compiled package: its manifest and the files that the compiler wrote.
#[derive(Debug, Clone)]
pub struct Package {
    /// Manifest, parsed from the manifest file.
    pub manifest: Manifest,
    /// Path to the generated C file.
    pub c_file: String,
    /// Path to the generated C header file.
    pub h_file: String,
    /// Source file.
    pub src: String,
}

/// The name of the native library built for the project `project`.
pub open spec fn lib_name(project: Seq<char>) -> Seq<char> {
    "futhark_generate_"@ + project
}

/// The build-script line that links the C library `lib`; on macOS OpenCL is
/// a framework.
pub open spec fn link_line(lib: Seq<char>, macos: bool) -> Seq<char> {
    if macos && lib == "OpenCL"@ {
        "cargo:rustc-link-lib=framework="@ + lib
    } else {
        "cargo:rustc-link-lib="@ + lib
    }
}

fn concat(a: &str, b: &str) -> (r: String)
    ensures
        r@ == a@ + b@,
{
    let mut r = String::from_str(a);
    r.append(b);
    r
}

impl Package {
    /// The lines a build script prints to link the package built as the
    /// project `project`: rebuild when the source changes, link the package's
    /// own library, then each C library that its backend needs.
    pub fn link_lines(&self, project: &str, macos: bool) -> (r: Vec<String>)
        ensures
            r@.len() == 2 + self.manifest.backend.spec_c_libs().len(),
            r@[0]@ == "cargo:rerun-if-changed="@ + self.src@,
            r@[1]@ == "cargo:rustc-link-lib="@ + lib_name(project@),
            forall|k: int|
                0 <= k < self.manifest.backend.spec_c_libs().len() ==> (#[trigger] r@[k + 2])@
                    == link_line(self.manifest.backend.spec_c_libs()[k], macos),
    {
        let mut r: Vec<String> = Vec::new();
        r.push(concat("cargo:rerun-if-changed=", self.src.as_str()));
        let name = concat("futhark_generate_", project);
        r.push(concat("cargo:rustc-link-lib=", name.as_str()));
        proof {
            assert(name@ == lib_name(project@));
            assert(("cargo:rustc-link-lib="@ + name@) == "cargo:rustc-link-lib="@ + lib_name(
                project@,
            ));
        }
        let libs = self.manifest.backend.required_c_libs();
        let mut k: usize = 0;
        while k < libs.len()
            invariant
                libs@.map_values(|s: &str| s@) == self.manifest.backend.spec_c_libs(),
                k <= libs@.len(),
                r@.len() == 2 + k,
                r@[0]@ == "cargo:rerun-if-changed="@ + self.src@,
                r@[1]@ == "cargo:rustc-link-lib="@ + lib_name(project@),
                forall|j: int|
                    0 <= j < k ==> (#[trigger] r@[j + 2])@ == link_line(
                        self.manifest.backend.spec_c_libs()[j],
                        macos,
                    ),
            decreases libs@.len() - k,
        {
            let lib = libs[k];
            let line = if macos && same_text(lib, "OpenCL") {
                concat("cargo:rustc-link-lib=framework=", lib)
            } else {
                concat("cargo:rustc-link-lib=", lib)
            };
            proof {
                assert(libs@.map_values(|s: &str| s@)[k as int] == lib@);
            }
            r.push(line);
            k = k + 1;
        }
        r
    }
}

} // verus!
