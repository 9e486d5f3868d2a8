//! The on-screen hex keyboard: five rows of keys, each key some units wide.

use vstd::prelude::*;

verus! {

/// One key: its label and its width in key units.
#[derive(Clone, Debug)]
pub struct KeyDef {
    pub label: &'static str,
    pub width_units: u8,
}

/// The keyboard: its rows of keys, and the keys under the pointer and pressed,
/// as (row, column).
#[derive(Clone, Debug)]
pub struct HexKeyboard {
    pub rows: Vec<Vec<KeyDef>>,
    pub hover_key: Option<(usize, usize)>,
    pub pressed_key: Option<(usize, usize)>,
}

/// The labels and widths of the keys, row by row.
pub open spec fn key_layout() -> Seq<Seq<(Seq<char>, u8)>> {
    seq![
        seq![
            ("`"@, 1u8),
            ("1"@, 1u8),
            ("2"@, 1u8),
            ("3"@, 1u8),
            ("4"@, 1u8),
            ("5"@, 1u8),
            ("6"@, 1u8),
            ("7"@, 1u8),
            ("8"@, 1u8),
            ("9"@, 1u8),
            ("0"@, 1u8),
            ("-"@, 1u8),
            ("="@, 1u8),
            ("Backspace"@, 2u8),
        ],
        seq![
            ("Tab"@, 2u8),
            ("Q"@, 1u8),
            ("W"@, 1u8),
            ("E"@, 1u8),
            ("R"@, 1u8),
            ("T"@, 1u8),
            ("Y"@, 1u8),
            ("U"@, 1u8),
            ("I"@, 1u8),
            ("O"@, 1u8),
            ("P"@, 1u8),
            ("["@, 1u8),
            ("]"@, 1u8),
            ("\\"@, 1u8),
        ],
        seq![
            ("CapsLk"@, 2u8),
            ("A"@, 1u8),
            ("S"@, 1u8),
            ("D"@, 1u8),
            ("F"@, 1u8),
            ("G"@, 1u8),
            ("H"@, 1u8),
            ("J"@, 1u8),
            ("K"@, 1u8),
            ("L"@, 1u8),
            (";"@, 1u8),
            ("'"@, 1u8),
            ("Enter"@, 2u8),
        ],
        seq![
            ("Shift"@, 2u8),
            ("Z"@, 1u8),
            ("X"@, 1u8),
            ("C"@, 1u8),
            ("V"@, 1u8),
            ("B"@, 1u8),
            ("N"@, 1u8),
            ("M"@, 1u8),
            (","@, 1u8),
            ("."@, 1u8),
            ("/"@, 1u8),
            ("Shift"@, 2u8),
        ],
        seq![
            ("Ctrl"@, 2u8),
            ("Meta"@, 2u8),
            ("Alt"@, 2u8),
            ("Space"@, 6u8),
            ("Alt"@, 2u8),
            ("Ctrl"@, 2u8),
        ],
    ]
}

pub open spec fn row_view(r: Vec<KeyDef>) -> Seq<(Seq<char>, u8)> {
    r@.map_values(|k: KeyDef| (k.label@, k.width_units))
}

pub open spec fn rows_view(rows: Seq<Vec<KeyDef>>) -> Seq<Seq<(Seq<char>, u8)>> {
    rows.map_values(|r: Vec<KeyDef>| row_view(r))
}

impl HexKeyboard {
    /// The keyboard in the US layout, nothing hovered or pressed.
    pub fn new() -> (k: Self)
        ensures
            rows_view(k.rows@) == key_layout(),
            k.hover_key is None,
            k.pressed_key is None,
    {
        let rows: Vec<Vec<KeyDef>> = vec![
            vec![
                KeyDef { label: "`", width_units: 1 },
                KeyDef { label: "1", width_units: 1 },
                KeyDef { label: "2", width_units: 1 },
                KeyDef { label: "3", width_units: 1 },
                KeyDef { label: "4", width_units: 1 },
                KeyDef { label: "5", width_units: 1 },
                KeyDef { label: "6", width_units: 1 },
                KeyDef { label: "7", width_units: 1 },
                KeyDef { label: "8", width_units: 1 },
                KeyDef { label: "9", width_units: 1 },
                KeyDef { label: "0", width_units: 1 },
                KeyDef { label: "-", width_units: 1 },
                KeyDef { label: "=", width_units: 1 },
                KeyDef { label: "Backspace", width_units: 2 },
            ],
            vec![
                KeyDef { label: "Tab", width_units: 2 },
                KeyDef { label: "Q", width_units: 1 },
                KeyDef { label: "W", width_units: 1 },
                KeyDef { label: "E", width_units: 1 },
                KeyDef { label: "R", width_units: 1 },
                KeyDef { label: "T", width_units: 1 },
                KeyDef { label: "Y", width_units: 1 },
                KeyDef { label: "U", width_units: 1 },
                KeyDef { label: "I", width_units: 1 },
                KeyDef { label: "O", width_units: 1 },
                KeyDef { label: "P", width_units: 1 },
                KeyDef { label: "[", width_units: 1 },
                KeyDef { label: "]", width_units: 1 },
                KeyDef { label: "\\", width_units: 1 },
            ],
            vec![
                KeyDef { label: "CapsLk", width_units: 2 },
                KeyDef { label: "A", width_units: 1 },
                KeyDef { label: "S", width_units: 1 },
                KeyDef { label: "D", width_units: 1 },
                KeyDef { label: "F", width_units: 1 },
                KeyDef { label: "G", width_units: 1 },
                KeyDef { label: "H", width_units: 1 },
                KeyDef { label: "J", width_units: 1 },
                KeyDef { label: "K", width_units: 1 },
                KeyDef { label: "L", width_units: 1 },
                KeyDef { label: ";", width_units: 1 },
                KeyDef { label: "'", width_units: 1 },
                KeyDef { label: "Enter", width_units: 2 },
            ],
            vec![
                KeyDef { label: "Shift", width_units: 2 },
                KeyDef { label: "Z", width_units: 1 },
                KeyDef { label: "X", width_units: 1 },
                KeyDef { label: "C", width_units: 1 },
                KeyDef { label: "V", width_units: 1 },
                KeyDef { label: "B", width_units: 1 },
                KeyDef { label: "N", width_units: 1 },
                KeyDef { label: "M", width_units: 1 },
                KeyDef { label: ",", width_units: 1 },
                KeyDef { label: ".", width_units: 1 },
                KeyDef { label: "/", width_units: 1 },
                KeyDef { label: "Shift", width_units: 2 },
            ],
            vec![
                KeyDef { label: "Ctrl", width_units: 2 },
                KeyDef { label: "Meta", width_units: 2 },
                KeyDef { label: "Alt", width_units: 2 },
                KeyDef { label: "Space", width_units: 6 },
                KeyDef { label: "Alt", width_units: 2 },
                KeyDef { label: "Ctrl", width_units: 2 },
            ],
        ];
        proof {
            assert(rows_view(rows@) =~~= key_layout());
        }
        HexKeyboard { rows, hover_key: None, pressed_key: None }
    }
}

} // verus!
