use vstd::prelude::*;

verus! {

/// The most vitality a living villager can have.
pub const MAX_HEALTH: u8 = 100;

/// Vitality of a villager: a number from 0 to [`MAX_HEALTH`] while alive,
/// nothing once dead. Its view is that optional number.
#[derive(Debug, PartialEq, Eq, Hash)]
pub struct Health(Option<u8>);

impl View for Health {
    type V = Option<u8>;

    closed spec fn view(&self) -> Option<u8> {
        self.0
    }
}

impl Clone for Health {
    fn clone(&self) -> (res: Self)
        ensures
            res@ == self@,
    {
        proof {
            use_type_invariant(self);
        }
        Health(self.0)
    }
}

impl Health {
    #[verifier::type_invariant]
    closed spec fn in_range(&self) -> bool {
        self.0 matches Some(h) ==> h <= MAX_HEALTH
    }

    /// The health of a living villager with `amount` of vitality.
    pub fn new(amount: u8) -> (health: Self)
        requires
            amount <= MAX_HEALTH,
        ensures
            health@ == Some(amount),
    {
        Self(Some(amount))
    }

    /// Adds `amount` to a living villager's vitality, stopping at
    /// [`MAX_HEALTH`]. The dead stay dead.
    pub fn replenish(&mut self, amount: u8)
        ensures
            final(self)@ == match old(self)@ {
                Some(h) => Some(
                    if h + amount <= MAX_HEALTH {
                        (h + amount) as u8
                    } else {
                        MAX_HEALTH
                    },
                ),
                None => None,
            },
    {
        proof {
            use_type_invariant(&*self);
        }
        if let Some(health) = self.0 {
            let room: u8 = MAX_HEALTH - health;
            if amount <= room {
                self.0 = Some(health + amount);
            } else {
                self.0 = Some(MAX_HEALTH);
            }
        }
    }

    /// Takes `amount` from a living villager's vitality. Taking more than is
    /// left kills; taking exactly what is left leaves 0, still alive.
    pub fn sap(&mut self, amount: u8)
        ensures
            final(self)@ == match old(self)@ {
                Some(h) => if amount <= h {
                    Some((h - amount) as u8)
                } else {
                    None
                },
                None => None,
            },
    {
        proof {
            use_type_invariant(&*self);
        }
        if let Some(health) = self.0 {
            if amount <= health {
                self.0 = Some(health - amount);
            } else {
                self.0 = None;
            }
        }
    }

    /// The vitality left, or nothing for the dead.
    pub fn check(&self) -> (health: Option<u8>)
        ensures
            health == self@,
            health matches Some(h) ==> h <= MAX_HEALTH,
    {
        proof {
            use_type_invariant(self);
        }
        self.0
    }
}

impl Default for Health {
    fn default() -> (health: Self)
        ensures
            health@ == Some(MAX_HEALTH),
    {
        Self::new(MAX_HEALTH)
    }
}

/// The mathematical value of a [`Villager`].
pub struct VillagerView {
    pub position: (i64, i64),
    pub health: Option<u8>,
    pub inventory: Seq<Seq<char>>,
}

/// The planning subject: where it stands, how it fares and what it carries.
/// The inventory keeps the order in which tags were picked up, and a tag may
/// occur many times.
#[derive(Debug, PartialEq, Eq, Hash)]
pub struct Villager {
    pub position: (i64, i64),
    pub health: Health,
    pub inventory: Vec<String>,
}

impl View for Villager {
    type V = VillagerView;

    open spec fn view(&self) -> VillagerView {
        VillagerView {
            position: self.position,
            health: self.health@,
            inventory: self.inventory.deep_view(),
        }
    }
}

impl Clone for Villager {
    fn clone(&self) -> (res: Self)
        ensures
            res@ == self@,
    {
        let inventory = self.inventory.clone();
        assert(inventory.deep_view() =~= self.inventory.deep_view());
        Villager { position: self.position, health: self.health.clone(), inventory }
    }
}

impl Default for Villager {
    fn default() -> (villager: Self)
        ensures
            villager@ == (VillagerView {
                position: (0i64, 0i64),
                health: Some(MAX_HEALTH),
                inventory: Seq::empty(),
            }),
    {
        let inventory: Vec<String> = Vec::new();
        assert(inventory.deep_view() =~= Seq::<Seq<char>>::empty());
        Villager { position: (0, 0), health: Health::default(), inventory }
    }
}

impl Villager {
    /// A healthy villager with empty hands at `position`.
    pub fn new(position: (i64, i64)) -> (villager: Self)
        ensures
            villager@ == (VillagerView {
                position,
                health: Some(MAX_HEALTH),
                inventory: Seq::empty(),
            }),
    {
        let mut villager = Villager::default();
        villager.position = position;
        villager
    }

    /// Whether any health is left, be it zero.
    pub fn is_alive(&self) -> (alive: bool)
        ensures
            alive == self@.health.is_some(),
    {
        self.health.check().is_some()
    }
}

} // verus!
