# ui_gtk

The GTK user interface of the Code++ editor, with its logic verified by Verus.

`src/` is the library. It holds what the interface decides and computes, on
plain values: menus and their commands, the tab strip, searching and replacing,
Find in Files, the dock and its panels, the plugin host, sessions, printing,
the status bar. Every executable function has a contract, and the laws that
span several functions are public proof functions beside them. Work that
alternates decisions and widgets is a machine: a `step` takes a reading and
returns the next action.

`app/` draws the widgets and calls Scintilla, the file system and the shell. It
carries out what the library returns.

`tests/` runs the library on concrete values.
