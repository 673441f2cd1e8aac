//! Calendar dates, held as year, month and day.

use chrono::Datelike;
use vstd::prelude::*;

verus! {

/// Whether `an` is a leap year of the Gregorian calendar.
pub open spec fn bissextile(an: int) -> bool {
    an % 4 == 0 && (an % 100 != 0 || an % 400 == 0)
}

/// The number of days of month `mois` (1 to 12) in year `an`.
pub open spec fn jours_du_mois(an: int, mois: int) -> int {
    if mois == 2 {
        if bissextile(an) {
            29
        } else {
            28
        }
    } else if mois == 4 || mois == 6 || mois == 9 || mois == 11 {
        30
    } else {
        31
    }
}

/// The years that a date can lie in.
pub open spec fn an_possible(an: int) -> bool {
    -262143 <= an <= 262142
}

/// Whether the day `jour` of month `mois` of year `an` exists.
pub open spec fn date_valide(an: int, mois: int, jour: int) -> bool {
    &&& an_possible(an)
    &&& 1 <= mois <= 12
    &&& 1 <= jour <= jours_du_mois(an, mois)
}

/// `chrono::NaiveDate::from_ymd_opt`, read back through `Datelike::year`,
/// `month` and `day`: the three numbers come back when they name a day of the
/// proleptic Gregorian calendar in a year that chrono can hold, and nothing
/// comes back otherwise.
#[verifier::external_body]
fn depuis_calendrier(an: i32, mois: u32, jour: u32) -> (r: Option<(i32, u32, u32)>)
    ensures
        r == if date_valide(an as int, mois as int, jour as int) {
            Some((an, mois, jour))
        } else {
            None
        },
{
    chrono::NaiveDate::from_ymd_opt(an, mois, jour).map(|d| (d.year(), d.month(), d.day()))
}

/// `chrono::Local::now` and `DateTime::date_naive`: the calendar date that the
/// machine's clock and time zone give at the moment of the call.
#[verifier::external_body]
fn date_du_jour() -> (r: (i32, u32, u32))
    ensures
        date_valide(r.0 as int, r.1 as int, r.2 as int),
{
    let d = chrono::Local::now().date_naive();
    (d.year(), d.month(), d.day())
}

/// The days of each month.
pub trait DayInMonth {
    /// The number of the month, from 1 for January to 12 for December.
    spec fn numero(&self) -> int;

    /// The most days that the month ever has.
    fn day_in_month(&self) -> (n: u32)
        ensures
            n == jours_du_mois(2000, self.numero()),
    ;

    /// The days that the month has in `year`.
    fn days_in_month_year(&self, year: i32) -> (n: u32)
        ensures
            n == jours_du_mois(year as int, self.numero()),
    ;
}

/// A month of the year.
#[derive(Debug, Clone, Copy, PartialEq, Eq, Structural, Hash)]
pub enum Mois {
    Janvier,
    Fevrier,
    Mars,
    Avril,
    Mai,
    Juin,
    Juillet,
    Aout,
    Septembre,
    Octobre,
    Novembre,
    Decembre,
}

impl Mois {
    /// The month with the given number, from 1 for January to 12 for December.
    pub fn try_from(n: u8) -> (r: Option<Mois>)
        ensures
            r is Some <==> 1 <= n <= 12,
            r matches Some(m) ==> m.numero() == n,
    {
        match n {
            1 => Some(Mois::Janvier),
            2 => Some(Mois::Fevrier),
            3 => Some(Mois::Mars),
            4 => Some(Mois::Avril),
            5 => Some(Mois::Mai),
            6 => Some(Mois::Juin),
            7 => Some(Mois::Juillet),
            8 => Some(Mois::Aout),
            9 => Some(Mois::Septembre),
            10 => Some(Mois::Octobre),
            11 => Some(Mois::Novembre),
            12 => Some(Mois::Decembre),
            _ => None,
        }
    }

    /// The number of the month, from 1 for January to 12 for December.
    pub fn number(&self) -> (n: u8)
        ensures
            n == self.numero(),
            1 <= n <= 12,
    {
        match self {
            Mois::Janvier => 1,
            Mois::Fevrier => 2,
            Mois::Mars => 3,
            Mois::Avril => 4,
            Mois::Mai => 5,
            Mois::Juin => 6,
            Mois::Juillet => 7,
            Mois::Aout => 8,
            Mois::Septembre => 9,
            Mois::Octobre => 10,
            Mois::Novembre => 11,
            Mois::Decembre => 12,
        }
    }
}

impl DayInMonth for Mois {
    open spec fn numero(&self) -> int {
        match self {
            Mois::Janvier => 1,
            Mois::Fevrier => 2,
            Mois::Mars => 3,
            Mois::Avril => 4,
            Mois::Mai => 5,
            Mois::Juin => 6,
            Mois::Juillet => 7,
            Mois::Aout => 8,
            Mois::Septembre => 9,
            Mois::Octobre => 10,
            Mois::Novembre => 11,
            Mois::Decembre => 12,
        }
    }

    fn day_in_month(&self) -> (n: u32) {
        match self {
            Mois::Janvier => 31,
            Mois::Fevrier => 29,
            Mois::Mars => 31,
            Mois::Avril => 30,
            Mois::Mai => 31,
            Mois::Juin => 30,
            Mois::Juillet => 31,
            Mois::Aout => 31,
            Mois::Septembre => 30,
            Mois::Octobre => 31,
            Mois::Novembre => 30,
            Mois::Decembre => 31,
        }
    }

    fn days_in_month_year(&self, year: i32) -> (n: u32) {
        let n: u8 = self.number();
        if n == 2 {
            let leap = (year % 4 == 0) ^ (year % 100 == 0) ^ (year % 400 == 0);
            if leap {
                29
            } else {
                28
            }
        } else {
            let k: u8 = (if n >= 8 {
                n - 7
            } else {
                n
            }) - 1;
            if k % 2 == 0 {
                31
            } else {
                30
            }
        }
    }
}

/// A day of the calendar.
#[derive(Debug, Clone, Copy, PartialEq, Eq, Structural, Hash)]
pub struct Date {
    an: i32,
    mois: u32,
    jour: u32,
}

impl Date {
    /// The year.
    pub closed spec fn an(&self) -> int {
        self.an as int
    }

    /// The month, from 1 to 12.
    pub closed spec fn mois(&self) -> int {
        self.mois as int
    }

    /// The day of the month, from 1.
    pub closed spec fn jour(&self) -> int {
        self.jour as int
    }

    #[verifier::type_invariant]
    spec fn inv(self) -> bool {
        date_valide(self.an as int, self.mois as int, self.jour as int)
    }

    /// A number that grows with the date: a date comes before another exactly
    /// when its rank is smaller.
    pub open spec fn rang(&self) -> int {
        self.an() * 512 + self.mois() * 32 + self.jour()
    }

    /// The given day, if it exists.
    pub fn from_ymd_opt(an: i32, mois: u32, jour: u32) -> (r: Option<Date>)
        ensures
            r is Some <==> date_valide(an as int, mois as int, jour as int),
            r matches Some(d) ==> d.an() == an && d.mois() == mois && d.jour() == jour,
    {
        match depuis_calendrier(an, mois, jour) {
            Some((a, m, j)) => Some(Date { an: a, mois: m, jour: j }),
            None => None,
        }
    }

    /// The date of today, by the clock and the time zone of the machine.
    pub fn today() -> (d: Date) {
        let (an, mois, jour) = date_du_jour();
        Date { an, mois, jour }
    }

    /// The year.
    pub fn year(&self) -> (a: i32)
        ensures
            a == self.an(),
            an_possible(a as int),
    {
        proof {
            use_type_invariant(self);
        }
        self.an
    }

    /// The month, from 1 to 12.
    pub fn month(&self) -> (m: u32)
        ensures
            m == self.mois(),
            1 <= m <= 12,
    {
        proof {
            use_type_invariant(self);
        }
        self.mois
    }

    /// The day of the month, from 1.
    pub fn day(&self) -> (j: u32)
        ensures
            j == self.jour(),
            1 <= j <= jours_du_mois(self.an(), self.mois()),
    {
        proof {
            use_type_invariant(self);
        }
        self.jour
    }

    /// The rank of the date, see [`Self::rang`].
    pub fn ordinal(&self) -> (r: i64)
        ensures
            r == self.rang(),
    {
        proof {
            use_type_invariant(self);
        }
        (self.an as i64) * 512 + (self.mois as i64) * 32 + (self.jour as i64)
    }

    /// Whether this date comes before `other`.
    pub fn avant(&self, other: &Date) -> (b: bool)
        ensures
            b == (self.rang() < other.rang()),
            b == (self.an() < other.an() || (self.an() == other.an() && (self.mois() < other.mois()
                || (self.mois() == other.mois() && self.jour() < other.jour())))),
    {
        proof {
            use_type_invariant(self);
            use_type_invariant(other);
        }
        self.ordinal() < other.ordinal()
    }

    /// The number of full years from `debut` to this date; nothing if `debut`
    /// comes after this date.
    pub fn years_since(&self, debut: &Date) -> (r: Option<u32>)
        ensures
            r is Some <==> debut.rang() <= self.rang(),
            r matches Some(n) ==> n == self.an() - debut.an() - (if self.mois() * 32 + self.jour()
                < debut.mois() * 32 + debut.jour() {
                1int
            } else {
                0int
            }),
    {
        proof {
            use_type_invariant(self);
            use_type_invariant(debut);
        }
        if self.ordinal() < debut.ordinal() {
            return None;
        }
        let ans: i64 = (self.an as i64) - (debut.an as i64);
        let entame: bool = self.mois * 32 + self.jour < debut.mois * 32 + debut.jour;
        if entame {
            Some((ans - 1) as u32)
        } else {
            Some(ans as u32)
        }
    }
}

impl Default for Date {
    /// The first of January 1970.
    fn default() -> (d: Self)
        ensures
            d.an() == 1970,
            d.mois() == 1,
            d.jour() == 1,
    {
        Date { an: 1970, mois: 1, jour: 1 }
    }
}

} // verus!
