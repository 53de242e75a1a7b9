use vstd::prelude::*;

use crate::manifest::same_text;

verus! {

/// The compilation target of the underlying library.
#[derive(Debug, PartialEq, Eq, Structural, Clone, Copy)]
pub enum Backend {
    /// Sequential C backend.
    C,
    /// CUDA backend.
    Cuda,
    /// OpenCL backend.
    OpenCl,
    /// Multicore C backend.
    Multicore,
    /// ISPC backend.
    Ispc,
    /// HIP backend.
    Hip,
}

impl Backend {
    /// The name of a backend, as written in a manifest.
    pub open spec fn spec_name(self) -> Seq<char> {
        match self {
            Backend::C => "c"@,
            Backend::Cuda => "cuda"@,
            Backend::OpenCl => "opencl"@,
            Backend::Multicore => "multicore"@,
            Backend::Ispc => "ispc"@,
            Backend::Hip => "hip"@,
        }
    }

    /// Get the name of a backend.
    pub fn to_str(&self) -> (r: &'static str)
        ensures
            r@ == self.spec_name(),
    {
        match self {
            Backend::C => "c",
            Backend::Cuda => "cuda",
            Backend::OpenCl => "opencl",
            Backend::Multicore => "multicore",
            Backend::Ispc => "ispc",
            Backend::Hip => "hip",
        }
    }
    /// The backend that `name` selects, matched without regard to ASCII case.
    /// The HIP backend is not selectable by name.
    pub open spec fn spec_from_name(name: Seq<char>) -> Option<Backend> {
        let l = ascii_lower_text(name);
        if l == "c"@ {
            Some(Backend::C)
        } else if l == "cuda"@ {
            Some(Backend::Cuda)
        } else if l == "opencl"@ {
            Some(Backend::OpenCl)
        } else if l == "multicore"@ {
            Some(Backend::Multicore)
        } else if l == "ispc"@ {
            Some(Backend::Ispc)
        } else {
            None
        }
    }

    /// Return the backend specified by the given name if valid.
    pub fn from_name(name: &str) -> (r: Option<Backend>)
        ensures
            r == Backend::spec_from_name(name@),
    {
        let l = to_ascii_lowercase(name);
        let l = l.as_str();
        if same_text(l, "c") {
            Some(Backend::C)
        } else if same_text(l, "cuda") {
            Some(Backend::Cuda)
        } else if same_text(l, "opencl") {
            Some(Backend::OpenCl)
        } else if same_text(l, "multicore") {
            Some(Backend::Multicore)
        } else if same_text(l, "ispc") {
            Some(Backend::Ispc)
        } else {
            None
        }
    }

    /// The C libraries that a program built for this backend links.
    pub open spec fn spec_c_libs(self) -> Seq<Seq<char>> {
        match self {
            Backend::Cuda => seq!["cuda"@, "cudart"@, "nvrtc"@, "m"@],
            Backend::OpenCl => seq!["OpenCL"@, "m"@],
            Backend::Multicore | Backend::Ispc => seq!["pthread"@, "m"@],
            Backend::Hip => seq!["hiprtc"@, "amdhip64"@],
            Backend::C => seq![],
        }
    }

    /// Returns the C libraries that need to be linked for a backend.
    pub fn required_c_libs(&self) -> (r: &'static [&'static str])
        ensures
            r@.map_values(|s: &str| s@) == self.spec_c_libs(),
    {
        let r: &'static [&'static str] = match self {
            Backend::Cuda => &["cuda", "cudart", "nvrtc", "m"],
            Backend::OpenCl => &["OpenCL", "m"],
            Backend::Multicore | Backend::Ispc => &["pthread", "m"],
            Backend::Hip => &["hiprtc", "amdhip64"],
            Backend::C => &[],
        };
        proof {
            assert(r@.map_values(|s: &str| s@) =~= self.spec_c_libs());
        }
        r
    }

    /// Whether the bindings offer a thread-count setting.
    pub open spec fn spec_has_threads(self) -> bool {
        self == Backend::Multicore
    }

    /// Whether the bindings offer a thread-count setting.
    pub fn has_thread_option(&self) -> (r: bool)
        ensures
            r == self.spec_has_threads(),
    {
        matches!(self, Backend::Multicore)
    }

    /// Whether the bindings offer a device-selection setting.
    pub open spec fn spec_has_device(self) -> bool {
        self == Backend::Cuda || self == Backend::OpenCl
    }

    /// Whether the bindings offer a device-selection setting.
    pub fn has_device_option(&self) -> (r: bool)
        ensures
            r == self.spec_has_device(),
    {
        matches!(self, Backend::Cuda | Backend::OpenCl)
    }
}

pub open spec fn ascii_lower(c: char) -> char {
    if 'A' <= c && c <= 'Z' {
        ((c as u32) + 32) as char
    } else {
        c
    }
}

/// `s` with each ASCII upper-case letter in lower case.
pub open spec fn ascii_lower_text(s: Seq<char>) -> Seq<char> {
    s.map_values(|c: char| ascii_lower(c))
}

/// Relies on std's `str::to_ascii_lowercase`, which maps `A` to `Z` to `a` to
/// `z` and leaves every other character as it is.
#[verifier::external_body]
fn to_ascii_lowercase(s: &str) -> (r: String)
    ensures
        r@ == ascii_lower_text(s@),
{
    s.to_ascii_lowercase()
}

} // verus!
