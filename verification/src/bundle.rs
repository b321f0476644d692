//! The rule that gives a bundle of ports its handle, as a plan that a code
//! generator can write out.

use vstd::prelude::*;

verus! {

/// What kind of type a declaration declares.
#[derive(Clone, Copy, Debug, PartialEq, Eq)]
pub enum Shape {
    /// A struct with named fields.
    Named,
    /// A struct with unnamed fields.
    Unnamed,
    /// A struct without fields.
    Unit,
    Enum,
    Union,
}

/// One named field of a declared bundle: its name and its type, as
/// written.
#[derive(Debug)]
pub struct FieldDecl {
    pub name: String,
    pub ty: String,
}

/// A declared bundle.
#[derive(Debug)]
pub struct BundleDecl {
    pub name: String,
    pub shape: Shape,
    pub fields: Vec<FieldDecl>,
}

/// One field of a handle: it has the name of the bundle's field, and its
/// type is the handle type of the bundle field's type `of`.
#[derive(Debug)]
pub struct HandleField {
    pub name: String,
    pub of: String,
}

/// The handle that goes with a bundle.
#[derive(Debug)]
pub struct HandleDecl {
    pub name: String,
    pub fields: Vec<HandleField>,
}

/// Why no handle goes with a declaration.
#[derive(Clone, Copy, Debug, PartialEq, Eq)]
pub enum DeriveError {
    /// The declaration is not a struct with named fields.
    NotNamedStruct,
}

impl DeriveError {
    /// The diagnostic to show.
    pub fn message(&self) -> (text: &'static str)
        ensures
            text@ == "input must be a struct with named fields"@,
    {
        "input must be a struct with named fields"
    }
}

/// The name of the handle that goes with the bundle called `bundle`.
pub open spec fn handle_name(bundle: Seq<char>) -> Seq<char> {
    "__"@ + bundle + "Handle"@
}

/// `field` is the handle field that goes with the bundle field `of`.
pub open spec fn mirrors(field: HandleField, of: FieldDecl) -> bool {
    field.name@ == of.name@ && field.of@ == of.ty@
}

/// Plans the handle of a bundle: a struct with named fields gets a handle
/// with one field for each of its own, of the same name and in the same
/// order; anything else gets none.
pub fn derive(decl: &BundleDecl) -> (res: Result<HandleDecl, DeriveError>)
    ensures
        match res {
            Ok(handle) => {
                &&& decl.shape == Shape::Named
                &&& handle.name@ == handle_name(decl.name@)
                &&& handle.fields@.len() == decl.fields@.len()
                &&& forall|i: int|
                    0 <= i < decl.fields@.len() ==> mirrors(
                        #[trigger] handle.fields@[i],
                        decl.fields@[i],
                    )
            },
            Err(error) => decl.shape != Shape::Named && error == DeriveError::NotNamedStruct,
        },
{
    match decl.shape {
        Shape::Named => {},
        _ => {
            return Err(DeriveError::NotNamedStruct);
        },
    }
    let mut name = "__".to_owned();
    name.append(decl.name.as_str());
    name.append("Handle");
    let mut fields: Vec<HandleField> = Vec::new();
    let mut i: usize = 0;
    while i < decl.fields.len()
        invariant
            i <= decl.fields@.len(),
            fields@.len() == i,
            forall|k: int| 0 <= k < i ==> mirrors(#[trigger] fields@[k], decl.fields@[k]),
        decreases decl.fields.len() - i,
    {
        let field = &decl.fields[i];
        fields.push(HandleField { name: field.name.clone(), of: field.ty.clone() });
        i += 1;
    }
    Ok(HandleDecl { name, fields })
}

} // verus!
