# ruter

Next departures by bus, tram, metro and train in Norway, from where you stand,
using Entur's open journey planner.

`src/` is the library, written and proved in Verus: the boards and the live
`--watch` view as text, the journey timeline, line badges and their colours,
the GraphQL and geocoder requests and what is read from their answers, the
saved places and routes with their case-insensitive lookup, the order in which
a position is looked for, the upgrade check, and the `doctor` report, in which
saved places, routes and the default origin appear only as counts and as set or
not set, and a failed position lookup only as a failure.

`app/` is the program around it: the command line, HTTP, the config file, the
terminal UI, Core Location on macOS, and the decimal degrees of coordinates.

`tests/` runs the library on concrete values.
