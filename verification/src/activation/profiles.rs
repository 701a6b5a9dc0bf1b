//! Nix profiles: what they hold, and the commands that change them.
use vstd::prelude::*;

use crate::command::{self, exit_error};
use crate::number::{self, i64_text};
use crate::paths::{self, paths_match};
use crate::text::{self, cat2, fail, push_line, same_option, Error, Text};

verus! {

/// One element of a profile.
#[derive(Debug, Clone)]
pub struct ProfileElement {
    pub name: String,
    pub active: bool,
    pub store_paths: Vec<String>,
}

/// The answer to listing a profile, its elements in the order of their names.
#[derive(Debug, Clone)]
pub enum ListingRead {
    Listed { elements: Vec<ProfileElement> },
    NotExecuted { cause: String },
    Exited { status: String, stderr: String },
    NotParsed { cause: String },
}

/// The answer for one profile, `None` being the default profile.
#[derive(Debug, Clone)]
pub struct ProfileListing {
    pub profile: Option<String>,
    pub listing: ListingRead,
}

pub struct ElementView {
    pub name: Text,
    pub active: bool,
    pub store_paths: Seq<Text>,
}

pub struct ListingView {
    pub profile: Option<Text>,
    pub listing: Result<Seq<ElementView>, Text>,
}

impl DeepView for ProfileElement {
    type V = ElementView;

    open spec fn deep_view(&self) -> ElementView {
        ElementView {
            name: self.name@,
            active: self.active,
            store_paths: self.store_paths.deep_view(),
        }
    }
}

impl DeepView for ListingRead {
    type V = Result<Seq<ElementView>, Text>;

    open spec fn deep_view(&self) -> Result<Seq<ElementView>, Text> {
        match self {
            ListingRead::Listed { elements } => Ok(elements.deep_view()),
            ListingRead::NotExecuted { cause } => Err(
                "failed to execute nix profile list: "@ + cause@,
            ),
            ListingRead::Exited { status, stderr } => Err(
                command::exit_message("nix profile list"@, status@, stderr@),
            ),
            ListingRead::NotParsed { cause } => Err(
                "failed to parse nix profile JSON: "@ + cause@,
            ),
        }
    }
}

impl DeepView for ProfileListing {
    type V = ListingView;

    open spec fn deep_view(&self) -> ListingView {
        ListingView { profile: self.profile.deep_view(), listing: self.listing.deep_view() }
    }
}

/// Whether an element provides a store path.
pub open spec fn provides(element: ElementView, store_path: Text) -> bool {
    element.active && exists|i: int|
        0 <= i < element.store_paths.len() && paths::same_path(
            #[trigger] element.store_paths[i],
            store_path,
        )
}

/// The name of the first element that provides a store path.
pub open spec fn element_for(elements: Seq<ElementView>, store_path: Text) -> Option<Text>
    decreases elements.len(),
{
    if elements.len() == 0 {
        None
    } else if provides(elements[0], store_path) {
        Some(elements[0].name)
    } else {
        element_for(elements.drop_first(), store_path)
    }
}

fn element_provides(element: &ProfileElement, store_path: &str) -> (r: bool)
    ensures
        r == provides(element.deep_view(), store_path@),
{
    if !element.active {
        return false;
    }
    let ghost all = element.store_paths.deep_view();
    let mut i: usize = 0;
    while i < element.store_paths.len()
        invariant
            i <= element.store_paths@.len(),
            all == element.store_paths.deep_view(),
            all.len() == element.store_paths@.len(),
            element.active,
            forall|j: int| 0 <= j < i ==> !paths::same_path(#[trigger] all[j], store_path@),
        decreases element.store_paths@.len() - i,
    {
        assert(all[i as int] == element.store_paths@[i as int]@);
        if paths_match(element.store_paths[i].as_str(), store_path) {
            assert(paths::same_path(element.deep_view().store_paths[i as int], store_path@));
            return true;
        }
        i += 1;
    }
    false
}

/// What looking for a store path in a profile's listing gives.
pub open spec fn found_element(
    listing: Result<Seq<ElementView>, Text>,
    store_path: Text,
) -> Result<Option<Text>, Text> {
    match listing {
        Ok(elements) => Ok(element_for(elements, store_path)),
        Err(problem) => Err(problem),
    }
}

/// The active element of a profile that provides a store path.
pub fn find_profile_element(listing: &ListingRead, store_path: &str) -> (r: Result<
    Option<String>,
    Error,
>)
    ensures
        text::outcome(r) == found_element(listing.deep_view(), store_path@),
{
    let elements = match listing {
        ListingRead::Listed { elements } => elements,
        ListingRead::NotExecuted { cause } => {
            return Err(fail(cat2("failed to execute nix profile list: ", cause.as_str())));
        },
        ListingRead::Exited { status, stderr } => {
            return Err(fail(exit_error("nix profile list", status.as_str(), stderr.as_str())));
        },
        ListingRead::NotParsed { cause } => {
            return Err(fail(cat2("failed to parse nix profile JSON: ", cause.as_str())));
        },
    };
    let ghost all = elements.deep_view();
    let mut i: usize = 0;
    assert(all.skip(0) =~= all);
    while i < elements.len()
        invariant
            i <= elements@.len(),
            all == elements.deep_view(),
            all.len() == elements@.len(),
            listing.deep_view() == Ok::<Seq<ElementView>, Text>(all),
            element_for(all, store_path@) == element_for(all.skip(i as int), store_path@),
        decreases elements@.len() - i,
    {
        assert(all.skip(i as int)[0] == elements@[i as int].deep_view());
        if element_provides(&elements[i], store_path) {
            return Ok(Some(elements[i].name.clone()));
        }
        assert(all.skip(i as int).drop_first() =~= all.skip(i + 1));
        i += 1;
    }
    Ok(None)
}

/// Whether a listed profile provides a store path.
pub open spec fn listing_has(listing: Result<Seq<ElementView>, Text>, store_path: Text) -> Result<
    bool,
    Text,
> {
    match found_element(listing, store_path) {
        Ok(element) => Ok(element is Some),
        Err(problem) => Err(problem),
    }
}

pub fn profile_contains_store_path(listing: &ListingRead, store_path: &str) -> (r: Result<
    bool,
    Error,
>)
    ensures
        text::outcome(r) == listing_has(listing.deep_view(), store_path@),
{
    match find_profile_element(listing, store_path) {
        Ok(element) => Ok(element.is_some()),
        Err(error) => Err(error),
    }
}

/// The first answer for a profile; one that was not listed holds nothing.
pub open spec fn listing_for(listings: Seq<ListingView>, profile: Option<Text>) -> Result<
    Seq<ElementView>,
    Text,
>
    decreases listings.len(),
{
    if listings.len() == 0 {
        Ok(Seq::empty())
    } else if listings[0].profile == profile {
        listings[0].listing
    } else {
        listing_for(listings.drop_first(), profile)
    }
}

pub(crate) fn listed_profile_contains(
    listings: &Vec<ProfileListing>,
    profile: &Option<String>,
    store_path: &str,
) -> (r: Result<bool, Error>)
    ensures
        text::outcome(r) == listing_has(
            listing_for(listings.deep_view(), profile.deep_view()),
            store_path@,
        ),
{
    let ghost all = listings.deep_view();
    let mut i: usize = 0;
    assert(all.skip(0) =~= all);
    while i < listings.len()
        invariant
            i <= listings@.len(),
            all == listings.deep_view(),
            all.len() == listings@.len(),
            listing_for(all, profile.deep_view()) == listing_for(
                all.skip(i as int),
                profile.deep_view(),
            ),
        decreases listings@.len() - i,
    {
        assert(all.skip(i as int)[0] == listings@[i as int].deep_view());
        if same_option(&listings[i].profile, profile) {
            return profile_contains_store_path(&listings[i].listing, store_path);
        }
        assert(all.skip(i as int).drop_first() =~= all.skip(i + 1));
        i += 1;
    }
    Ok(false)
}

// ---- Commands

/// The arguments that every nix command begins with.
pub open spec fn nix_prefix() -> Seq<Text> {
    seq!["--extra-experimental-features"@, "nix-command flakes"@]
}

pub(crate) fn nix_arguments() -> (r: Vec<String>)
    ensures
        r.deep_view() == nix_prefix(),
{
    let mut r: Vec<String> = Vec::new();
    push_line(&mut r, "--extra-experimental-features".to_owned());
    push_line(&mut r, "nix-command flakes".to_owned());
    assert(r.deep_view() =~= nix_prefix());
    r
}

/// The arguments that choose a profile.
pub open spec fn profile_choice(profile: Option<Text>) -> Seq<Text> {
    match profile {
        Some(path) => seq!["--profile"@, path],
        None => Seq::empty(),
    }
}

fn push_profile(args: &mut Vec<String>, profile: &Option<String>)
    ensures
        final(args).deep_view() == old(args).deep_view() + profile_choice(profile.deep_view()),
{
    let ghost before = args.deep_view();
    if let Some(path) = profile {
        push_line(args, "--profile".to_owned());
        push_line(args, path.clone());
    }
    assert(args.deep_view() =~= before + profile_choice(profile.deep_view()));
}

pub open spec fn profile_add_arguments(
    profile: Option<Text>,
    store_path: Text,
    priority: i64,
) -> Seq<Text> {
    nix_prefix() + seq![
        "profile"@,
        "add"@,
        "--priority"@,
        number::signed_decimal(priority as int),
    ] + profile_choice(profile) + seq![store_path]
}

pub fn profile_add(profile: &Option<String>, store_path: &str, priority: i64) -> (r: Vec<
    String,
>)
    ensures
        r.deep_view() == profile_add_arguments(profile.deep_view(), store_path@, priority),
{
    let mut r = nix_arguments();
    push_line(&mut r, "profile".to_owned());
    push_line(&mut r, "add".to_owned());
    push_line(&mut r, "--priority".to_owned());
    push_line(&mut r, i64_text(priority));
    push_profile(&mut r, profile);
    push_line(&mut r, store_path.to_owned());
    assert(r.deep_view() =~= profile_add_arguments(profile.deep_view(), store_path@, priority));
    r
}

pub open spec fn profile_remove_arguments(profile: Option<Text>, store_path: Text) -> Seq<Text> {
    nix_prefix() + seq!["profile"@, "remove"@] + profile_choice(profile) + seq![store_path]
}

pub fn profile_remove(profile: &Option<String>, store_path: &str) -> (r: Vec<String>)
    ensures
        r.deep_view() == profile_remove_arguments(profile.deep_view(), store_path@),
{
    let mut r = nix_arguments();
    push_line(&mut r, "profile".to_owned());
    push_line(&mut r, "remove".to_owned());
    push_profile(&mut r, profile);
    push_line(&mut r, store_path.to_owned());
    assert(r.deep_view() =~= profile_remove_arguments(profile.deep_view(), store_path@));
    r
}

pub open spec fn profile_list_arguments(profile: Option<Text>) -> Seq<Text> {
    nix_prefix() + seq!["profile"@, "list"@, "--json"@] + profile_choice(profile)
}

/// The arguments of the nix command that lists a profile as JSON.
pub fn profile_list(profile: &Option<String>) -> (r: Vec<String>)
    ensures
        r.deep_view() == profile_list_arguments(profile.deep_view()),
{
    let mut r = nix_arguments();
    push_line(&mut r, "profile".to_owned());
    push_line(&mut r, "list".to_owned());
    push_line(&mut r, "--json".to_owned());
    push_profile(&mut r, profile);
    assert(r.deep_view() =~= profile_list_arguments(profile.deep_view()));
    r
}

} // verus!
