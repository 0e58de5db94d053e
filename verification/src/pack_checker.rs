//! One reference together with the packs that it connects and what their rules say of it.

use crate::pack::{position, Configuration, Pack, Reference, SourceLocation};
use crate::text::{append_decimal, contains_text, decimal, has_text};
use vstd::prelude::*;

verus! {

/// What the rules of the packs say of one reference. An answer that could not be had is the
/// message that says why.
#[derive(Debug)]
pub struct PackRules {
    /// Whether the reference is to be checked for the kind of violation at all.
    pub checkable: Result<bool, String>,
    /// Whether the referencing pack lets pass the violations of the checked kind against the
    /// defining file of the reference. It is not read where the reference has no such file.
    pub ignored: Result<bool, String>,
    /// Whether a violation may not be recorded as a known one.
    pub strict: bool,
}

/// Why a reference could not be checked.
#[derive(Debug, PartialEq, Eq)]
pub enum CheckError {
    /// The reference names a pack that is not configured.
    UnknownPack { name: String },
    /// The rules of the packs gave no answer.
    Rules { message: String },
    /// The reference does not say which file of the defining pack it leads to.
    MissingDefiningFile { defining_pack_name: String },
}

/// A `CheckError` with its texts.
pub enum CheckErrorView {
    UnknownPack { name: Seq<char> },
    Rules { message: Seq<char> },
    MissingDefiningFile { defining_pack_name: Seq<char> },
}

impl View for CheckError {
    type V = CheckErrorView;

    open spec fn view(&self) -> CheckErrorView {
        match self {
            CheckError::UnknownPack { name } => CheckErrorView::UnknownPack { name: name@ },
            CheckError::Rules { message } => CheckErrorView::Rules { message: message@ },
            CheckError::MissingDefiningFile { defining_pack_name } => {
                CheckErrorView::MissingDefiningFile { defining_pack_name: defining_pack_name@ }
            },
        }
    }
}

impl CheckErrorView {
    /// The error in words.
    pub open spec fn words(self) -> Seq<char> {
        match self {
            CheckErrorView::UnknownPack { name } => "no pack is named: "@ + name,
            CheckErrorView::Rules { message } => message,
            CheckErrorView::MissingDefiningFile { defining_pack_name } => {
                "expected a relative defining file for defining pack: "@ + defining_pack_name
            },
        }
    }
}

impl CheckError {
    /// The error in words.
    pub fn message(&self) -> (text: String)
        ensures
            text@ == self@.words(),
    {
        match self {
            CheckError::UnknownPack { name } => {
                "no pack is named: ".to_owned().concat(name.as_str())
            },
            CheckError::Rules { message } => message.clone(),
            CheckError::MissingDefiningFile { defining_pack_name } => {
                "expected a relative defining file for defining pack: ".to_owned().concat(
                    defining_pack_name.as_str(),
                )
            },
        }
    }
}

/// What a violation is recorded under.
#[derive(Debug, PartialEq, Eq)]
pub struct ViolationIdentifier {
    pub violation_type: String,
    pub strict: bool,
    pub file: String,
    pub constant_name: String,
    pub referencing_pack_name: String,
    pub defining_pack_name: String,
    pub details: Option<String>,
}

/// A reference that breaks a rule.
#[derive(Debug, PartialEq, Eq)]
pub struct Violation {
    pub message: String,
    pub identifier: ViolationIdentifier,
    pub source_location: SourceLocation,
}

/// A `ViolationIdentifier` with its texts.
pub struct ViolationIdentifierView {
    pub violation_type: Seq<char>,
    pub strict: bool,
    pub file: Seq<char>,
    pub constant_name: Seq<char>,
    pub referencing_pack_name: Seq<char>,
    pub defining_pack_name: Seq<char>,
    pub details: Option<Seq<char>>,
}

/// A `Violation` with its texts.
pub struct ViolationView {
    pub message: Seq<char>,
    pub identifier: ViolationIdentifierView,
    pub source_location: SourceLocation,
}

impl View for ViolationIdentifier {
    type V = ViolationIdentifierView;

    open spec fn view(&self) -> ViolationIdentifierView {
        ViolationIdentifierView {
            violation_type: self.violation_type@,
            strict: self.strict,
            file: self.file@,
            constant_name: self.constant_name@,
            referencing_pack_name: self.referencing_pack_name@,
            defining_pack_name: self.defining_pack_name@,
            details: match self.details {
                Some(details) => Some(details@),
                None => None,
            },
        }
    }
}

impl View for Violation {
    type V = ViolationView;

    open spec fn view(&self) -> ViolationView {
        ViolationView {
            message: self.message@,
            identifier: self.identifier@,
            source_location: self.source_location,
        }
    }
}

/// A reference with the packs that it connects and the rules that hold of it.
pub struct PackChecker<'a> {
    pub reference: &'a Reference,
    pub referencing_pack: &'a Pack,
    pub defining_pack: Option<&'a Pack>,
    pub rules: &'a PackRules,
    pub violation_type: String,
}

/// The pack that makes the reference, and the pack that defines what it refers to where there is
/// one, by their indices; or the first of their names that is unknown.
pub open spec fn connected_packs(packs: Seq<Pack>, reference: Reference) -> Result<
    (int, Option<int>),
    CheckErrorView,
> {
    match position(packs, reference.referencing_pack_name@) {
        None => Err(CheckErrorView::UnknownPack { name: reference.referencing_pack_name@ }),
        Some(referencing) => match reference.defining_pack_name {
            None => Ok((referencing, None)),
            Some(name) => match position(packs, name@) {
                None => Err(CheckErrorView::UnknownPack { name: name@ }),
                Some(defining) => Ok((referencing, Some(defining))),
            },
        },
    }
}

/// Whether the reference makes an implicit dependency of the pack `referencing` on the pack
/// `defining`: it is to be checked, the dependency is neither declared nor ignored, and the rules
/// do not let violations against the defining file pass.
pub open spec fn is_implicit_dependency(
    referencing: Pack,
    defining: Pack,
    reference: Reference,
    rules: PackRules,
) -> Result<bool, CheckErrorView> {
    match rules.checkable {
        Err(message) => Err(CheckErrorView::Rules { message: message@ }),
        Ok(false) => Ok(false),
        Ok(true) => if has_text(referencing.dependencies@, defining.name@) || has_text(
            referencing.ignored_dependencies@,
            defining.name@,
        ) {
            Ok(false)
        } else if reference.relative_defining_file is None {
            Err(CheckErrorView::MissingDefiningFile { defining_pack_name: defining.name@ })
        } else {
            match rules.ignored {
                Err(message) => Err(CheckErrorView::Rules { message: message@ }),
                Ok(ignored) => Ok(!ignored),
            }
        },
    }
}

/// The packs that the reference connects, by their names, where it makes an implicit dependency
/// of the first on the second. `None` where it does not.
pub open spec fn implicit_dependency(
    packs: Seq<Pack>,
    reference: Reference,
    rules: PackRules,
) -> Result<Option<(Seq<char>, Seq<char>)>, CheckErrorView> {
    match connected_packs(packs, reference) {
        Err(error) => Err(error),
        Ok((referencing, None)) => match rules.checkable {
            Err(message) => Err(CheckErrorView::Rules { message: message@ }),
            Ok(_) => Ok(None),
        },
        Ok((referencing, Some(defining))) => match is_implicit_dependency(
            packs[referencing],
            packs[defining],
            reference,
            rules,
        ) {
            Err(error) => Err(error),
            Ok(false) => Ok(None),
            Ok(true) => Ok(Some((packs[referencing].name@, packs[defining].name@))),
        },
    }
}

/// Whether the rules want the reference checked only if it has a defining pack, as they should:
/// there is nothing to check it against otherwise.
pub open spec fn has_pack_to_check(reference: Reference, rules: PackRules) -> bool {
    rules.checkable == Ok::<bool, String>(true) ==> reference.defining_pack_name is Some
}

impl<'a> PackChecker<'a> {
    /// Looks up the packs that `reference` connects. It fails where one of its names is unknown.
    pub fn new(
        configuration: &'a Configuration,
        reference: &'a Reference,
        violation_type: String,
        rules: &'a PackRules,
    ) -> (checker: Result<PackChecker<'a>, CheckError>)
        ensures
            match connected_packs(configuration.packs@, *reference) {
                Err(error) => checker matches Err(e) && e@ == error,
                Ok((referencing, defining)) => checker matches Ok(c) && c.reference == reference
                    && c.rules == rules && c.violation_type == violation_type
                    && *c.referencing_pack == configuration.packs@[referencing]
                    && c.defining_pack == match defining {
                    Some(i) => Some(&configuration.packs@[i]),
                    None => None,
                },
            },
    {
        let referencing_pack = match configuration.for_pack(&reference.referencing_pack_name) {
            Some(pack) => pack,
            None => {
                return Err(
                    CheckError::UnknownPack { name: reference.referencing_pack_name.clone() },
                );
            },
        };
        let defining_pack = match &reference.defining_pack_name {
            None => None,
            Some(name) => match configuration.for_pack(name) {
                Some(pack) => Some(pack),
                None => {
                    return Err(CheckError::UnknownPack { name: name.clone() });
                },
            },
        };
        Ok(PackChecker { reference, referencing_pack, defining_pack, rules, violation_type })
    }

    /// The defining pack, where the reference makes an implicit dependency on it.
    pub fn implicit_dependency(&self) -> (found: Result<Option<&'a Pack>, CheckError>)
        requires
            self.rules.checkable == Ok::<bool, String>(true) ==> self.defining_pack is Some,
        ensures
            match self.defining_pack {
                Some(defining) => match is_implicit_dependency(
                    *self.referencing_pack,
                    *defining,
                    *self.reference,
                    *self.rules,
                ) {
                    Err(error) => found matches Err(e) && e@ == error,
                    Ok(true) => found == Ok::<Option<&Pack>, CheckError>(Some(defining)),
                    Ok(false) => found == Ok::<Option<&Pack>, CheckError>(None),
                },
                None => match self.rules.checkable {
                    Err(message) => found matches Err(e) && e@ == (CheckErrorView::Rules {
                        message: message@,
                    }),
                    Ok(_) => found == Ok::<Option<&Pack>, CheckError>(None),
                },
            },
    {
        match &self.rules.checkable {
            Err(message) => {
                return Err(CheckError::Rules { message: message.clone() });
            },
            Ok(checkable) => {
                if !*checkable {
                    return Ok(None);
                }
            },
        }
        let defining_pack = self.defining_pack.unwrap();
        let already_declared = contains_text(
            &self.referencing_pack.dependencies,
            &defining_pack.name,
        ) || contains_text(&self.referencing_pack.ignored_dependencies, &defining_pack.name);
        if already_declared {
            return Ok(None);
        }
        if self.reference.relative_defining_file.is_none() {
            return Err(
                CheckError::MissingDefiningFile { defining_pack_name: defining_pack.name.clone() },
            );
        }
        match &self.rules.ignored {
            Err(message) => Err(CheckError::Rules { message: message.clone() }),
            Ok(ignored) => if *ignored {
                Ok(None)
            } else {
                Ok(Some(defining_pack))
            },
        }
    }

    /// What a violation of the reference is recorded under, with `details` of it.
    pub fn violation_identifier_with_details(
        &self,
        defining_pack: &Pack,
        details: Option<String>,
    ) -> (identifier: ViolationIdentifier)
        ensures
            identifier.violation_type == self.violation_type,
            identifier.strict == self.rules.strict,
            identifier.file == self.reference.relative_referencing_file,
            identifier.constant_name == self.reference.constant_name,
            identifier.referencing_pack_name == self.referencing_pack.name,
            identifier.defining_pack_name == defining_pack.name,
            identifier.details == details,
    {
        ViolationIdentifier {
            violation_type: self.violation_type.clone(),
            strict: self.rules.strict,
            file: self.reference.relative_referencing_file.clone(),
            constant_name: self.reference.constant_name.clone(),
            referencing_pack_name: self.referencing_pack.name.clone(),
            defining_pack_name: defining_pack.name.clone(),
            details,
        }
    }
}

/// The place of a reference: file, line and column, on a line of their own.
pub open spec fn location(reference: Reference) -> Seq<char> {
    reference.relative_referencing_file@ + ":"@ + decimal(reference.source_location.line as nat)
        + ":"@ + decimal(reference.source_location.column as nat) + "\n"@
}

/// Prints the place of a reference.
pub fn print_reference_location(reference: &Reference) -> (text: String)
    ensures
        text@ == location(*reference),
{
    let mut text = reference.relative_referencing_file.clone();
    text.append(":");
    append_decimal(&mut text, reference.source_location.line);
    text.append(":");
    append_decimal(&mut text, reference.source_location.column);
    text.append("\n");
    text
}

} // verus!
