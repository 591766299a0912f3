# efbench client

A benchmark client that pings a server over one gRPC stream, one ping at a time, and reports
latency, throughput and the traffic of a network interface once a second, live in the terminal or
as a plot.

`src/` is the verified library. It holds what the client decides and computes:

- `text`: decimal numbers, written and read.
- `net`: paths, addresses and the checks before a run.
- `bench`: the ping loop and the counters it fills.
- `report`: the once-a-second report.
- `live`: the state of the live view.
- `tui`: the loop of the live view.
- `chart`, `column`, `dashboard`, `layout`: what the live view shows, and where.
- `plot`: the loop that gathers a run, and the charts of its plot.

The loops take in events and answer with actions. `app/` performs the actions: it connects, sends,
reads files, draws and saves. Numbers that are not integers are floating point and are computed
there too; the library carries a mean latency as the bits of a double and ranks it by them.

`app/` takes the server's stub and messages from `efbench::proto`.
