//! The binaries that can be looked up: well-known tools or a custom file name.

use vstd::prelude::*;

verus! {

/// A binary to locate under an architecture directory.
#[derive(Clone, Debug, PartialEq)]
pub enum KnownBinary {
    Accevent,
    Inspect,
    Custom(String),
}

/// The file name that a binary stands for.
pub open spec fn binary_name(b: KnownBinary) -> Seq<char> {
    match b {
        KnownBinary::Accevent => "accevent.exe"@,
        KnownBinary::Inspect => "inspect.exe"@,
        KnownBinary::Custom(s) => s@,
    }
}

/// The name under which a well-known binary is chosen on the command line.
pub open spec fn value_name(b: KnownBinary) -> Option<Seq<char>> {
    match b {
        KnownBinary::Accevent => Some("accevent"@),
        KnownBinary::Inspect => Some("inspect"@),
        KnownBinary::Custom(_) => None,
    }
}

impl KnownBinary {
    /// The binary's file name, as shown to the user.
    pub fn to_string(&self) -> (r: String)
        ensures
            r@ == binary_name(*self),
    {
        match self {
            KnownBinary::Accevent => "accevent.exe".to_owned(),
            KnownBinary::Inspect => "inspect.exe".to_owned(),
            KnownBinary::Custom(s) => s.clone(),
        }
    }

    /// The path segment of the binary under an architecture directory.
    pub fn get_subdir(&self) -> (r: String)
        ensures
            r@ == binary_name(*self),
    {
        match self {
            KnownBinary::Accevent => "accevent.exe".to_owned(),
            KnownBinary::Inspect => "inspect.exe".to_owned(),
            KnownBinary::Custom(s) => s.clone(),
        }
    }

    /// The well-known binaries, in the order they are offered.
    pub fn value_variants() -> (r: Vec<KnownBinary>)
        ensures
            r@ == seq![KnownBinary::Accevent, KnownBinary::Inspect],
    {
        let mut v: Vec<KnownBinary> = Vec::new();
        v.push(KnownBinary::Accevent);
        v.push(KnownBinary::Inspect);
        proof {
            assert(v@ =~= seq![KnownBinary::Accevent, KnownBinary::Inspect]);
        }
        v
    }

    /// The command-line name of a well-known binary; none for a custom one.
    pub fn to_possible_value(&self) -> (r: Option<String>)
        ensures
            opt_view(r) == value_name(*self),
    {
        match self {
            KnownBinary::Accevent => Some("accevent".to_owned()),
            KnownBinary::Inspect => Some("inspect".to_owned()),
            KnownBinary::Custom(_) => None,
        }
    }
}

/// An optional string, as a character sequence.
pub open spec fn opt_view(o: Option<String>) -> Option<Seq<char>> {
    match o {
        Some(s) => Some(s@),
        None => None,
    }
}

} // verus!
