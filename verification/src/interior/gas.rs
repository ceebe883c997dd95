use vstd::prelude::*;
use vstd::string::*;

verus! {

/// The gas species the ship knows about.
#[derive(Clone, Copy, Debug, PartialEq, Eq, Structural)]
pub enum GasType {
    O2,
    N2,
    CO2,
    Xenon,
}

/// The upper-case form of an ASCII letter; any other character unchanged.
pub open spec fn ascii_upper(c: char) -> char {
    if 'a' <= c && c <= 'z' {
        ((c as u8) - 32) as char
    } else {
        c
    }
}

/// A text with each ASCII lower-case letter replaced by its upper-case form.
pub open spec fn ascii_uppercase(s: Seq<char>) -> Seq<char> {
    Seq::new(s.len(), |i: int| ascii_upper(s[i]))
}

fn upper(c: char) -> (u: char)
    ensures
        u == ascii_upper(c),
{
    if 'a' <= c && c <= 'z' {
        ((c as u8) - 32) as char
    } else {
        c
    }
}

/// Whether `name`, read without regard to ASCII case, spells `word`.
fn spells(name: &str, word: &str) -> (b: bool)
    ensures
        b == (ascii_uppercase(name@) == word@),
{
    let n = name.unicode_len();
    if n != word.unicode_len() {
        return false;
    }
    let mut i: usize = 0;
    while i < n
        invariant
            i <= n,
            n == name@.len(),
            n == word@.len(),
            forall|j: int| 0 <= j < i ==> ascii_upper(name@[j]) == word@[j],
        decreases n - i,
    {
        if upper(name.get_char(i)) != word.get_char(i) {
            assert(ascii_uppercase(name@)[i as int] != word@[i as int]);
            return false;
        }
        i += 1;
    }
    assert(ascii_uppercase(name@) =~= word@);
    true
}

impl GasType {
    /// The key under which the gas is listed in a configuration.
    pub open spec fn key(self) -> Seq<char> {
        match self {
            GasType::O2 => "O2"@,
            GasType::N2 => "N2"@,
            GasType::CO2 => "CO2"@,
            GasType::Xenon => "Xenon"@,
        }
    }

    /// The gas that a name denotes, read without regard to ASCII case.
    pub open spec fn named(name: Seq<char>) -> Option<GasType> {
        let upper = ascii_uppercase(name);
        if upper == "O2"@ {
            Some(GasType::O2)
        } else if upper == "N2"@ {
            Some(GasType::N2)
        } else if upper == "CO2"@ {
            Some(GasType::CO2)
        } else if upper == "XENON"@ {
            Some(GasType::Xenon)
        } else {
            None
        }
    }

    pub fn config_key(&self) -> (key: &'static str)
        ensures
            key@ == self.key(),
    {
        match self {
            GasType::O2 => "O2",
            GasType::N2 => "N2",
            GasType::CO2 => "CO2",
            GasType::Xenon => "Xenon",
        }
    }

    pub fn from_name(name: &str) -> (gas: Option<Self>)
        ensures
            gas == Self::named(name@),
    {
        if spells(name, "O2") {
            Some(GasType::O2)
        } else if spells(name, "N2") {
            Some(GasType::N2)
        } else if spells(name, "CO2") {
            Some(GasType::CO2)
        } else if spells(name, "XENON") {
            Some(GasType::Xenon)
        } else {
            None
        }
    }
}

/// The gas held by one breathable tile, and its temperature.
#[derive(Clone, Copy, Debug)]
pub struct TileAtmosphere<Q> {
    pub o2_kg: Q,
    pub n2_kg: Q,
    pub co2_kg: Q,
    pub temp_c: Q,
}

impl<Q: Copy> TileAtmosphere<Q> {
    pub fn new(o2_kg: Q, n2_kg: Q, co2_kg: Q, temp_c: Q) -> (cell: Self)
        ensures
            cell == (TileAtmosphere { o2_kg, n2_kg, co2_kg, temp_c }),
    {
        Self { o2_kg, n2_kg, co2_kg, temp_c }
    }

    /// The mass of a gas in the cell. A cell keeps oxygen, nitrogen and
    /// carbon dioxide; it has no place for xenon.
    pub open spec fn held(self, gas: GasType) -> Option<Q> {
        match gas {
            GasType::O2 => Some(self.o2_kg),
            GasType::N2 => Some(self.n2_kg),
            GasType::CO2 => Some(self.co2_kg),
            GasType::Xenon => None,
        }
    }

    /// The cell with the mass of a gas replaced; unchanged for xenon.
    pub open spec fn holding(self, gas: GasType, mass: Q) -> Self {
        match gas {
            GasType::O2 => TileAtmosphere { o2_kg: mass, ..self },
            GasType::N2 => TileAtmosphere { n2_kg: mass, ..self },
            GasType::CO2 => TileAtmosphere { co2_kg: mass, ..self },
            GasType::Xenon => self,
        }
    }

    /// The mass of a gas in the cell, if the cell keeps that gas.
    pub fn mass_of(&self, gas: GasType) -> (mass: Option<Q>)
        ensures
            mass == self.held(gas),
    {
        match gas {
            GasType::O2 => Some(self.o2_kg),
            GasType::N2 => Some(self.n2_kg),
            GasType::CO2 => Some(self.co2_kg),
            GasType::Xenon => None,
        }
    }

    /// The mass of a gas in the cell, to be changed in place, if the cell
    /// keeps that gas.
    pub fn mass_mut(&mut self, gas: GasType) -> (mass: Option<&mut Q>)
        ensures
            match mass {
                Some(m) => old(self).held(gas) == Some(*m) && *final(self) == old(self).holding(
                    gas,
                    *final(m),
                ),
                None => gas == GasType::Xenon && *final(self) == *old(self),
            },
    {
        match gas {
            GasType::O2 => Some(&mut self.o2_kg),
            GasType::N2 => Some(&mut self.n2_kg),
            GasType::CO2 => Some(&mut self.co2_kg),
            GasType::Xenon => None,
        }
    }
}

/// The ship-wide power account of the last step.
#[derive(Clone, Copy, Debug)]
pub struct PowerState<Q> {
    pub net_kw: Q,
    pub total_production_kw: Q,
    pub total_consumption_kw: Q,
}

} // verus!
