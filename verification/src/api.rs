//! What a caller sets before a transformation, and the transformations themselves.

use vstd::prelude::*;

use crate::error::Error;
use crate::module::Module;

verus! {

/// For exports of the source module, the names under which their derivative counterparts are
/// exported: a hash map of `hashbrown` from names to names.
#[verifier::external_body]
pub struct ExportNames {
    map: hashbrown::HashMap<String, String>,
}

/// What an [`ExportNames`] holds.
pub uninterp spec fn export_names(names: ExportNames) -> Map<Seq<char>, Seq<char>>;

/// For imports of the source module, the module and field names under which their derivative
/// counterparts are imported: a hash map of `hashbrown` from pairs of names to pairs of names.
#[verifier::external_body]
pub struct ImportNames {
    map: hashbrown::HashMap<(String, String), (String, String)>,
}

/// What an [`ImportNames`] holds.
pub uninterp spec fn import_names(names: ImportNames) -> Map<
    (Seq<char>, Seq<char>),
    (Seq<char>, Seq<char>),
>;

impl ExportNames {
    /// `HashMap::new` of `hashbrown`: a map that holds nothing.
    #[verifier::external_body]
    pub(crate) fn new() -> (r: Self)
        ensures
            export_names(r) == (Map::<Seq<char>, Seq<char>>::empty()),
    {
        ExportNames { map: hashbrown::HashMap::new() }
    }

    /// `HashMap::get` of `hashbrown`: the value stored under the key, if there is one.
    #[verifier::external_body]
    pub(crate) fn get(&self, primal: &str) -> (derivative: Option<&String>)
        ensures
            match derivative {
                Some(name) => export_names(*self).contains_key(primal@) && name@ == export_names(
                    *self,
                )[primal@],
                None => !export_names(*self).contains_key(primal@),
            },
    {
        self.map.get(primal)
    }

    /// `HashMap::insert` of `hashbrown`: the value is stored under the key, in place of what was
    /// stored under it.
    #[verifier::external_body]
    pub(crate) fn insert(&mut self, primal: String, derivative: String)
        ensures
            export_names(*final(self)) == export_names(*old(self)).insert(primal@, derivative@),
    {
        self.map.insert(primal, derivative);
    }
}

impl ImportNames {
    /// `HashMap::new` of `hashbrown`: a map that holds nothing.
    #[verifier::external_body]
    pub(crate) fn new() -> (r: Self)
        ensures
            import_names(r) == (Map::<(Seq<char>, Seq<char>), (Seq<char>, Seq<char>)>::empty()),
    {
        ImportNames { map: hashbrown::HashMap::new() }
    }

    /// `HashMap::get` of `hashbrown`: the value stored under the key, if there is one.
    #[verifier::external_body]
    pub(crate) fn get(&self, module: &str, name: &str) -> (derivative: Option<&(String, String)>)
        ensures
            match derivative {
                Some(pair) => import_names(*self).contains_key((module@, name@)) && (
                    pair.0@,
                    pair.1@,
                ) == import_names(*self)[(module@, name@)],
                None => !import_names(*self).contains_key((module@, name@)),
            },
    {
        self.map.get(&(module.to_owned(), name.to_owned()))
    }

    /// `HashMap::insert` of `hashbrown`: the value is stored under the key, in place of what was
    /// stored under it.
    #[verifier::external_body]
    pub(crate) fn insert(&mut self, primal: (String, String), derivative: (String, String))
        ensures
            import_names(*final(self)) == import_names(*old(self)).insert(
                (primal.0@, primal.1@),
                (derivative.0@, derivative.1@),
            ),
    {
        self.map.insert(primal, derivative);
    }
}

/// WebAssembly code transformations for automatic differentiation.
pub struct Autodiff {
    /// Whether the source module is to be validated before it is transformed.
    validate: bool,
    /// Import identifiers for the backward passes of imported functions.
    imports: ImportNames,
    /// Exported functions whose backward passes should also be exported.
    exports: ExportNames,
    /// Whether to include the name section in the output.
    names: bool,
}

/// What an [`Autodiff`] is set to.
pub struct Config {
    pub validate: bool,
    pub imports: Map<(Seq<char>, Seq<char>), (Seq<char>, Seq<char>)>,
    pub exports: Map<Seq<char>, Seq<char>>,
    pub names: bool,
}

impl View for Autodiff {
    type V = Config;

    closed spec fn view(&self) -> Config {
        Config {
            validate: self.validate,
            imports: import_names(self.imports),
            exports: export_names(self.exports),
            names: self.names,
        }
    }
}

impl Autodiff {
    /// Default configuration.
    pub fn new() -> (r: Self)
        ensures
            r@ == (Config {
                validate: true,
                imports: Map::empty(),
                exports: Map::empty(),
                names: false,
            }),
    {
        Self {
            validate: true,
            imports: ImportNames::new(),
            exports: ExportNames::new(),
            names: false,
        }
    }

    /// Do not validate input Wasm.
    pub fn no_validate() -> (r: Self)
        ensures
            r@ == (Config {
                validate: false,
                imports: Map::empty(),
                exports: Map::empty(),
                names: false,
            }),
    {
        Self {
            validate: false,
            imports: ImportNames::new(),
            exports: ExportNames::new(),
            names: false,
        }
    }

    /// Whether the source module is to be validated before it is transformed.
    pub fn validates(&self) -> (r: bool)
        ensures
            r == self@.validate,
    {
        self.validate
    }

    /// Whether the name section is included in the output Wasm.
    pub fn has_names(&self) -> (r: bool)
        ensures
            r == self@.names,
    {
        self.names
    }

    /// Include the name section in the output Wasm.
    pub fn names(&mut self)
        ensures
            final(self)@ == (Config { names: true, ..old(self)@ }),
    {
        self.names = true;
    }

    /// Whether a derivative counterpart is set for the import with these names.
    pub fn has_import(&self, module: &str, name: &str) -> (r: bool)
        ensures
            r == self@.imports.contains_key((module@, name@)),
    {
        self.imports.get(module, name).is_some()
    }

    /// In the output Wasm, import the derivative counterpart of an import from the input Wasm.
    pub fn import(&mut self, primal: (&str, &str), derivative: (&str, &str))
        requires
            !old(self)@.imports.contains_key((primal.0@, primal.1@)),
        ensures
            final(self)@ == (Config {
                imports: old(self)@.imports.insert(
                    (primal.0@, primal.1@),
                    (derivative.0@, derivative.1@),
                ),
                ..old(self)@
            }),
    {
        self.imports.insert(
            (primal.0.to_owned(), primal.1.to_owned()),
            (derivative.0.to_owned(), derivative.1.to_owned()),
        );
    }

    /// Whether a derivative counterpart is set for the export with this name.
    pub fn has_export(&self, primal: &str) -> (r: bool)
        ensures
            r == self@.exports.contains_key(primal@),
    {
        self.exports.get(primal).is_some()
    }

    /// In the output Wasm, also export the derivative counterpart of an export from the input Wasm.
    pub fn export(&mut self, primal: &str, derivative: &str)
        requires
            !old(self)@.exports.contains_key(primal@),
        ensures
            final(self)@ == (Config {
                exports: old(self)@.exports.insert(primal@, derivative@),
                ..old(self)@
            }),
    {
        self.exports.insert(primal.to_owned(), derivative.to_owned());
    }

    /// The derivative counterpart set for the export with this name, if there is one.
    pub fn exported(&self, primal: &str) -> (derivative: Option<&String>)
        ensures
            match derivative {
                Some(name) => self@.exports.contains_key(primal@) && name@ == self@.exports[primal@],
                None => !self@.exports.contains_key(primal@),
            },
    {
        self.exports.get(primal)
    }

    /// The derivative counterpart set for the import with these names, if there is one.
    pub fn imported(&self, module: &str, name: &str) -> (derivative: Option<&(String, String)>)
        ensures
            match derivative {
                Some(pair) => self@.imports.contains_key((module@, name@)) && (pair.0@, pair.1@)
                    == self@.imports[(module@, name@)],
                None => !self@.imports.contains_key((module@, name@)),
            },
    {
        self.imports.get(module, name)
    }

    /// Transform a WebAssembly module to compute derivatives in forward mode.
    ///
    /// Every floating-point parameter and result of a function is followed by its tangent.
    pub fn forward(&self, module: &Module) -> (r: Result<Vec<u8>, Error>)
        ensures
            match crate::forward::spec_transform(module) {
                Ok(bytes) => r is Ok && r->Ok_0@ == bytes,
                Err(e) => r == Err::<Vec<u8>, Error>(e),
            },
    {
        crate::forward::transform(module)
    }

    /// Transform a WebAssembly module to compute derivatives in reverse mode.
    ///
    /// Every function becomes a forward pass and a backward pass, behind the helpers that keep
    /// the tapes, and every memory becomes a memory for the values and one for their adjoints.
    pub fn reverse(&self, module: &Module) -> (r: Result<Vec<u8>, Error>)
        ensures
            match crate::assemble::spec_transform(self@, module) {
                Ok(bytes) => r is Ok && r->Ok_0@ == bytes,
                Err(e) => r == Err::<Vec<u8>, Error>(e),
            },
    {
        crate::assemble::transform(self, module)
    }
}

} // verus!
