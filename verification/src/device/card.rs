//! A physical or virtual audio adapter as one card-listing block reports it.

use vstd::prelude::*;

use super::bus::Bus;
use super::card_profile::CardProfile;
use super::form_factor::FormFactor;

verus! {

/// One card: identity, descriptive text, the profiles a bluetooth-backed
/// card offers, and the endpoints it owns by index.
#[derive(Clone, Debug)]
pub struct Card {
    pub index: u64,
    pub name: String,
    pub driver: String,
    pub description: String,
    pub profiles: Vec<CardProfile>,
    pub active_profile: CardProfile,
    pub source_ids: Vec<u64>,
    pub sink_ids: Vec<u64>,
    pub form_factor: FormFactor,
    pub bus: Bus,
}

/// The mathematical value of a card.
#[verifier::ext_equal]
pub ghost struct CardView {
    pub index: u64,
    pub name: Seq<char>,
    pub driver: Seq<char>,
    pub description: Seq<char>,
    pub profiles: Seq<CardProfile>,
    pub active_profile: CardProfile,
    pub source_ids: Seq<u64>,
    pub sink_ids: Seq<u64>,
    pub form_factor: FormFactor,
    pub bus: Bus,
}

impl View for Card {
    type V = CardView;

    open spec fn view(&self) -> CardView {
        CardView {
            index: self.index,
            name: self.name@,
            driver: self.driver@,
            description: self.description@,
            profiles: self.profiles@,
            active_profile: self.active_profile,
            source_ids: self.source_ids@,
            sink_ids: self.sink_ids@,
            form_factor: self.form_factor,
            bus: self.bus,
        }
    }
}

/// The value of a card no listing line has touched yet.
pub open spec fn card_default_view() -> CardView {
    CardView {
        index: 0,
        name: Seq::empty(),
        driver: Seq::empty(),
        description: Seq::empty(),
        profiles: Seq::empty(),
        active_profile: CardProfile::Off,
        source_ids: Seq::empty(),
        sink_ids: Seq::empty(),
        form_factor: FormFactor::Internal,
        bus: Bus::PCI,
    }
}

impl Default for Card {
    fn default() -> (r: Self)
        ensures
            r@ =~= card_default_view(),
    {
        Card {
            index: 0,
            name: String::new(),
            driver: String::new(),
            description: String::new(),
            profiles: Vec::new(),
            active_profile: CardProfile::Off,
            source_ids: Vec::new(),
            sink_ids: Vec::new(),
            form_factor: FormFactor::Internal,
            bus: Bus::PCI,
        }
    }
}

} // verus!
