//! Data offers announced to a data device, and its selection and drag'n'drop.
use vstd::prelude::*;

verus! {

/// The compositor referred to a data offer that it never announced.
#[derive(Clone, Copy, Debug, PartialEq, Eq, Structural)]
pub enum DataDeviceError {
    /// The offer with this object id is unknown
    UnknownOffer { offer: u32 },
}

/// `wl_data_device` user data: offers are named by their object id.
pub struct DataDeviceUserData {
    /// The current selection
    selection: Option<u32>,
    /// The current drag'n'drop
    current_dnd: Option<u32>,
    /// Announced offers not yet taken by a selection or a drag'n'drop
    offers: Vec<u32>,
}

/// Where `offer` stands among `offers`, if it is there.
pub open spec fn offer_index(offers: Seq<u32>, offer: u32) -> Option<int>
    decreases offers.len(),
{
    if offers.len() == 0 {
        None
    } else {
        match offer_index(offers.drop_last(), offer) {
            Some(i) => Some(i),
            None => if offers.last() == offer {
                Some(offers.len() - 1)
            } else {
                None
            },
        }
    }
}

/// `offers` once the one at `i` is taken out, the last one moving into its place.
pub open spec fn swap_removed(offers: Seq<u32>, i: int) -> Seq<u32> {
    offers.update(i, offers.last()).drop_last()
}

proof fn lemma_offer_index_prefix(offers: Seq<u32>, offer: u32, k: int)
    requires
        0 <= k < offers.len(),
        offer_index(offers.subrange(0, k), offer) is None,
    ensures
        offers[k] == offer ==> offer_index(offers.subrange(0, k + 1), offer) == Some(k),
        offers[k] != offer ==> offer_index(offers.subrange(0, k + 1), offer) is None,
{
    let pre = offers.subrange(0, k + 1);
    assert(pre.drop_last() =~= offers.subrange(0, k));
}

impl DataDeviceUserData {
    /// The current selection.
    pub closed spec fn selection_spec(&self) -> Option<u32> {
        self.selection
    }

    /// The current drag'n'drop offer.
    pub closed spec fn dnd_spec(&self) -> Option<u32> {
        self.current_dnd
    }

    /// The announced offers not yet taken.
    pub closed spec fn offers_spec(&self) -> Seq<u32> {
        self.offers@
    }

    /// No selection, no drag'n'drop, no offers.
    pub fn new() -> (r: Self)
        ensures
            r.selection_spec() is None,
            r.dnd_spec() is None,
            r.offers_spec() == Seq::<u32>::empty(),
    {
        DataDeviceUserData { selection: None, current_dnd: None, offers: Vec::new() }
    }

    /// The current selection.
    pub fn selection(&self) -> (r: Option<u32>)
        ensures
            r == self.selection_spec(),
    {
        self.selection
    }

    /// The current drag'n'drop offer.
    pub fn current_dnd(&self) -> (r: Option<u32>)
        ensures
            r == self.dnd_spec(),
    {
        self.current_dnd
    }

    /// The announced offers not yet taken.
    pub fn offers(&self) -> (r: &Vec<u32>)
        ensures
            r@ == self.offers_spec(),
    {
        &self.offers
    }

    /// The compositor announced offer `offer`.
    pub fn add_offer(&mut self, offer: u32)
        ensures
            final(self).offers_spec() == old(self).offers_spec().push(offer),
            final(self).selection_spec() == old(self).selection_spec(),
            final(self).dnd_spec() == old(self).dnd_spec(),
    {
        self.offers.push(offer);
    }

    /// Takes `offer` out of the announced offers.
    fn take_offer(&mut self, offer: u32) -> (r: Result<u32, DataDeviceError>)
        ensures
            final(self).selection_spec() == old(self).selection_spec(),
            final(self).dnd_spec() == old(self).dnd_spec(),
            match offer_index(old(self).offers_spec(), offer) {
                Some(i) => r == Ok::<u32, DataDeviceError>(offer) && final(self).offers_spec() == swap_removed(
                    old(self).offers_spec(),
                    i,
                ),
                None => r == Err::<u32, DataDeviceError>(DataDeviceError::UnknownOffer { offer })
                    && final(self).offers_spec() == old(self).offers_spec(),
            },
    {
        let n = self.offers.len();
        let mut i: usize = 0;
        let mut found = false;
        while i < n && !found
            invariant
                n == self.offers@.len(),
                0 <= i <= n,
                !found ==> offer_index(self.offers@.subrange(0, i as int), offer) is None,
                found ==> i < n && offer_index(self.offers@, offer) == Some(i as int) && self.offers@[i as int] == offer,
            decreases n - i + if found { 0int } else { 1int },
        {
            proof {
                lemma_offer_index_prefix(self.offers@, offer, i as int);
            }
            if self.offers[i] == offer {
                proof {
                    lemma_offer_index_full(self.offers@, offer, i as int);
                }
                found = true;
            } else {
                i = i + 1;
            }
        }
        if found {
            let taken = self.offers.swap_remove(i);
            return Ok(taken);
        }
        assert(self.offers@.subrange(0, n as int) =~= self.offers@);
        Err(DataDeviceError::UnknownOffer { offer })
    }

    /// The compositor set the selection to `offer`, or cleared it. An offer
    /// that was never announced is an error and changes nothing.
    pub fn set_selection(&mut self, offer: Option<u32>) -> (r: Result<(), DataDeviceError>)
        ensures
            final(self).dnd_spec() == old(self).dnd_spec(),
            offer is None ==> r is Ok && final(self).selection_spec() is None && final(self).offers_spec()
                == old(self).offers_spec(),
            offer matches Some(o) ==> match offer_index(old(self).offers_spec(), o) {
                Some(i) => r is Ok && final(self).selection_spec() == Some(o) && final(self).offers_spec()
                    == swap_removed(old(self).offers_spec(), i),
                None => r == Err::<(), DataDeviceError>(DataDeviceError::UnknownOffer { offer: o })
                    && final(self).selection_spec() == old(self).selection_spec()
                    && final(self).offers_spec() == old(self).offers_spec(),
            },
    {
        match offer {
            None => {
                self.selection = None;
                Ok(())
            },
            Some(o) => match self.take_offer(o) {
                Ok(taken) => {
                    self.selection = Some(taken);
                    Ok(())
                },
                Err(e) => Err(e),
            },
        }
    }

    /// A drag'n'drop entered with `offer`, or with none. An offer that was
    /// never announced is an error and changes nothing.
    pub fn set_dnd(&mut self, offer: Option<u32>) -> (r: Result<(), DataDeviceError>)
        ensures
            final(self).selection_spec() == old(self).selection_spec(),
            offer is None ==> r is Ok && final(self).dnd_spec() is None && final(self).offers_spec()
                == old(self).offers_spec(),
            offer matches Some(o) ==> match offer_index(old(self).offers_spec(), o) {
                Some(i) => r is Ok && final(self).dnd_spec() == Some(o) && final(self).offers_spec()
                    == swap_removed(old(self).offers_spec(), i),
                None => r == Err::<(), DataDeviceError>(DataDeviceError::UnknownOffer { offer: o })
                    && final(self).dnd_spec() == old(self).dnd_spec()
                    && final(self).offers_spec() == old(self).offers_spec(),
            },
    {
        match offer {
            None => {
                self.current_dnd = None;
                Ok(())
            },
            Some(o) => match self.take_offer(o) {
                Ok(taken) => {
                    self.current_dnd = Some(taken);
                    Ok(())
                },
                Err(e) => Err(e),
            },
        }
    }
}

proof fn lemma_offer_index_full(offers: Seq<u32>, offer: u32, k: int)
    requires
        0 <= k < offers.len(),
        offer_index(offers.subrange(0, k + 1), offer) == Some(k),
    ensures
        offer_index(offers, offer) == Some(k),
    decreases offers.len() - k,
{
    if k + 1 < offers.len() {
        let pre = offers.subrange(0, offers.len() - 1);
        assert(offers.drop_last() =~= pre);
        assert(pre.subrange(0, k + 1) =~= offers.subrange(0, k + 1));
        lemma_offer_index_full(pre, offer, k);
    } else {
        assert(offers.subrange(0, k + 1) =~= offers);
    }
}

} // verus!
