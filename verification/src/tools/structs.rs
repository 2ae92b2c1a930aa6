//! The date and time stamp of a run, in Spanish.

use vstd::prelude::*;
use chrono::{Datelike, Local, Timelike};
use crate::text::{
    ascii_lowercase, ascii_uppercase, chars_of, to_ascii_lowercase, first_chars, take_chars, decimal, decimal_string, signed_decimal, signed_decimal_string,
    string_of, to_ascii_uppercase, two_digit_string, two_digits,
};

verus! {

/// The local date and time now, as the day of the week counted from Sunday
/// (`0` to `6`), the day of the month (`1` to `31`), the month (`1` to `12`),
/// the year, the hour (`0` to `23`), the minute and the second (`0` to `59`).
///
/// Calls `chrono::Local::now` and reads the fields through `Datelike` and
/// `Timelike`; what is claimed is only the ranges that chrono documents for
/// those fields. Which instant comes back depends on the clock.
#[verifier::external_body]
fn local_now_parts() -> (res: (u32, u32, u32, i32, u32, u32, u32))
    ensures
        res.0 < 7,
        1 <= res.1 <= 31,
        1 <= res.2 <= 12,
        res.4 < 24,
        res.5 < 60,
        res.6 < 60,
{
    let now = Local::now();
    (
        now.weekday().num_days_from_sunday(),
        now.day(),
        now.month(),
        now.year(),
        now.hour(),
        now.minute(),
        now.second(),
    )
}

/// The Spanish name of the day of the week `w`, counted from Sunday.
pub open spec fn day_name(w: int) -> Seq<char> {
    if w == 0 {
        "Domingo"@
    } else if w == 1 {
        "Lunes"@
    } else if w == 2 {
        "Martes"@
    } else if w == 3 {
        "Miércoles"@
    } else if w == 4 {
        "Jueves"@
    } else if w == 5 {
        "Viernes"@
    } else {
        "Sábado"@
    }
}

/// The Spanish name of the month `m`, counted from January as `1`.
pub open spec fn month_name(m: int) -> Seq<char> {
    if m == 1 {
        "Enero"@
    } else if m == 2 {
        "Febrero"@
    } else if m == 3 {
        "Marzo"@
    } else if m == 4 {
        "Abril"@
    } else if m == 5 {
        "Mayo"@
    } else if m == 6 {
        "Junio"@
    } else if m == 7 {
        "Julio"@
    } else if m == 8 {
        "Agosto"@
    } else if m == 9 {
        "Septiembre"@
    } else if m == 10 {
        "Octubre"@
    } else if m == 11 {
        "Noviembre"@
    } else {
        "Diciembre"@
    }
}

/// A time of day as `HH:MM:SS`.
pub open spec fn clock_text(h: nat, m: nat, s: nat) -> Seq<char> {
    two_digits(h) + ":"@ + two_digits(m) + ":"@ + two_digits(s)
}

/// A date as it is shown to the user: `"Lunes, 3 de Marzo de 2025 09:05:07"`.
pub open spec fn long_date(
    dia_nombre: Seq<char>,
    dia: nat,
    mes_nombre: Seq<char>,
    anio: int,
    hms: Seq<char>,
) -> Seq<char> {
    dia_nombre + ", "@ + decimal(dia) + " de "@ + mes_nombre + " de "@ + signed_decimal(anio) + " "@
        + hms
}

/// The first three characters of the month name of `f`, in capitals.
pub open spec fn month_abbreviation(f: FechaView) -> Seq<char> {
    ascii_uppercase(first_chars(f.mes_nombre, 3))
}

/// What a date stamp holds.
pub struct FechaView {
    pub dia_nombre: Seq<char>,
    pub dia_numero: u32,
    pub mes_nombre: Seq<char>,
    pub mes_numero: u32,
    pub anio: i32,
    pub hora_min_seg: Seq<char>,
    pub hora24: u32,
    pub minutos: u32,
    pub segundos: u32,
    pub fecha_formateada: Seq<char>,
}

/// The date stamp of the given day of the week (from Sunday), day, month,
/// year, hour, minute and second.
pub open spec fn fecha_view_of(
    weekday: u32,
    day: u32,
    month: u32,
    year: i32,
    hour: u32,
    minute: u32,
    second: u32,
) -> FechaView {
    let hms = clock_text(hour as nat, minute as nat, second as nat);
    FechaView {
        dia_nombre: day_name(weekday as int),
        dia_numero: day,
        mes_nombre: month_name(month as int),
        mes_numero: month,
        anio: year,
        hora_min_seg: hms,
        hora24: hour,
        minutos: minute,
        segundos: second,
        fecha_formateada: long_date(
            day_name(weekday as int),
            day as nat,
            month_name(month as int),
            year as int,
            hms,
        ),
    }
}

/// A date stamp: the date and time of a moment, in numbers and in Spanish.
#[derive(Clone, Debug)]
pub struct Fecha {
    dia_nombre: String,
    dia_numero: u32,
    mes_nombre: String,
    mes_numero: u32,
    anio: i32,
    hora_min_seg: String,
    hora24: u32,
    minutos: u32,
    segundos: u32,
    fecha_formateada: String,
}

impl View for Fecha {
    type V = FechaView;

    closed spec fn view(&self) -> FechaView {
        FechaView {
            dia_nombre: self.dia_nombre@,
            dia_numero: self.dia_numero,
            mes_nombre: self.mes_nombre@,
            mes_numero: self.mes_numero,
            anio: self.anio,
            hora_min_seg: self.hora_min_seg@,
            hora24: self.hora24,
            minutos: self.minutos,
            segundos: self.segundos,
            fecha_formateada: self.fecha_formateada@,
        }
    }
}

fn day_name_string(w: u32) -> (res: String)
    ensures
        res@ == day_name(w as int),
{
    if w == 0 {
        String::from_str("Domingo")
    } else if w == 1 {
        String::from_str("Lunes")
    } else if w == 2 {
        String::from_str("Martes")
    } else if w == 3 {
        String::from_str("Miércoles")
    } else if w == 4 {
        String::from_str("Jueves")
    } else if w == 5 {
        String::from_str("Viernes")
    } else {
        String::from_str("Sábado")
    }
}

fn month_name_string(m: u32) -> (res: String)
    ensures
        res@ == month_name(m as int),
{
    if m == 1 {
        String::from_str("Enero")
    } else if m == 2 {
        String::from_str("Febrero")
    } else if m == 3 {
        String::from_str("Marzo")
    } else if m == 4 {
        String::from_str("Abril")
    } else if m == 5 {
        String::from_str("Mayo")
    } else if m == 6 {
        String::from_str("Junio")
    } else if m == 7 {
        String::from_str("Julio")
    } else if m == 8 {
        String::from_str("Agosto")
    } else if m == 9 {
        String::from_str("Septiembre")
    } else if m == 10 {
        String::from_str("Octubre")
    } else if m == 11 {
        String::from_str("Noviembre")
    } else {
        String::from_str("Diciembre")
    }
}

impl Fecha {
    /// The date stamp of the given day of the week (counted from Sunday),
    /// day, month, year, hour, minute and second.
    pub fn from_parts(
        weekday: u32,
        day: u32,
        month: u32,
        year: i32,
        hour: u32,
        minute: u32,
        second: u32,
    ) -> (res: Fecha)
        requires
            weekday < 7,
            1 <= month <= 12,
        ensures
            res@ == fecha_view_of(weekday, day, month, year, hour, minute, second),
    {
        let dia_nombre = day_name_string(weekday);
        let mes_nombre = month_name_string(month);
        let mut hms = two_digit_string(hour);
        hms.append(":");
        hms.append(two_digit_string(minute).as_str());
        hms.append(":");
        hms.append(two_digit_string(second).as_str());
        let mut texto = dia_nombre.clone();
        texto.append(", ");
        texto.append(decimal_string(day as u64).as_str());
        texto.append(" de ");
        texto.append(mes_nombre.as_str());
        texto.append(" de ");
        texto.append(signed_decimal_string(year).as_str());
        texto.append(" ");
        texto.append(hms.as_str());
        Fecha {
            dia_nombre,
            dia_numero: day,
            mes_nombre,
            mes_numero: month,
            anio: year,
            hora_min_seg: hms,
            hora24: hour,
            minutos: minute,
            segundos: second,
            fecha_formateada: texto,
        }
    }

    /// The date as shown to the user.
    pub fn get_fecha_formateada(&self) -> (res: &String)
        ensures
            res@ == self@.fecha_formateada,
    {
        &self.fecha_formateada
    }

    /// The name of the day of the week.
    pub fn _get_dia_nombre(&self) -> (res: &String)
        ensures
            res@ == self@.dia_nombre,
    {
        &self.dia_nombre
    }

    /// The name of the month.
    pub fn _get_mes_nombre(&self) -> (res: &String)
        ensures
            res@ == self@.mes_nombre,
    {
        &self.mes_nombre
    }

    /// The time as `HH:MM:SS`.
    pub fn _get_hora_min_seg(&self) -> (res: &String)
        ensures
            res@ == self@.hora_min_seg,
    {
        &self.hora_min_seg
    }

    /// The day of the month.
    pub fn get_dia_numero(&self) -> (res: &u32)
        ensures
            *res == self@.dia_numero,
    {
        &self.dia_numero
    }

    /// The month, from `1` for January.
    pub fn get_mes_numero(&self) -> (res: &u32)
        ensures
            *res == self@.mes_numero,
    {
        &self.mes_numero
    }

    /// The year.
    pub fn get_anio(&self) -> (res: &i32)
        ensures
            *res == self@.anio,
    {
        &self.anio
    }

    /// The hour, from `0` to `23`.
    pub fn _get_hora12(&self) -> (res: &u32)
        ensures
            *res == self@.hora24,
    {
        &self.hora24
    }

    /// The minute.
    pub fn _get_minutos(&self) -> (res: &u32)
        ensures
            *res == self@.minutos,
    {
        &self.minutos
    }

    /// The second.
    pub fn _get_segundos(&self) -> (res: &u32)
        ensures
            *res == self@.segundos,
    {
        &self.segundos
    }

    /// The first three characters of the name of the month, in small
    /// letters (`"ene"`, `"feb"`, ...). Month names are plain ASCII, so
    /// lowering ASCII capitals is the whole of lower-casing them.
    pub fn _get_mes_nombre_corto(&self) -> (res: String)
        ensures
            res@ == ascii_lowercase(first_chars(self@.mes_nombre, 3)),
    {
        string_of(&to_ascii_lowercase(&take_chars(&chars_of(self.mes_nombre.as_str()), 3)))
    }

    /// The first three characters of the name of the month, in capitals
    /// (`"ENE"`, `"FEB"`, ...). Month names are plain ASCII, so capitalising
    /// ASCII letters is the whole of upper-casing them.
    pub fn get_mes_nombre3letras(&self) -> (res: String)
        ensures
            res@ == month_abbreviation(self@),
    {
        string_of(&to_ascii_uppercase(&take_chars(&chars_of(self.mes_nombre.as_str()), 3)))
    }
}

/// The date stamp of the present moment.
pub fn fecha() -> (res: Fecha)
    ensures
        exists|w: u32, d: u32, m: u32, y: i32, h: u32, mi: u32, s: u32|
            w < 7 && 1 <= d <= 31 && 1 <= m <= 12 && h < 24 && mi < 60 && s < 60 && res@
                == fecha_view_of(w, d, m, y, h, mi, s),
{
    let (w, d, m, y, h, mi, s) = local_now_parts();
    let res = Fecha::from_parts(w, d, m, y, h, mi, s);
    assert(res@ == fecha_view_of(w, d, m, y, h, mi, s));
    res
}

/// The present hour and minute as `HHhorMMmin`, as the log files are
/// stamped.
pub fn hora_actual() -> (res: String)
    ensures
        exists|h: nat, m: nat| h < 24 && m < 60 && res@ == two_digits(h) + "hor"@ + two_digits(m) + "min"@,
{
    let (_w, _d, _m, _y, h, mi, _s) = local_now_parts();
    let mut res = two_digit_string(h);
    res.append("hor");
    res.append(two_digit_string(mi).as_str());
    res.append("min");
    assert(res@ == two_digits(h as nat) + "hor"@ + two_digits(mi as nat) + "min"@);
    res
}

} // verus!
