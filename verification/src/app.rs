//! The dashboard state and the refresh that one reading of the host brings.

use crate::fifo::MAX_CAPACITY;
use crate::metrics::{
    cpu_chart_value, disk_rows, free_ratio, ratio, received_total, sensor_rows, set_disk_section,
    set_network_section, set_temp_section, transmitted_total, usage_chart_value, Disk,
    MEMORY_UNIT, SWAP_UNIT,
};
use crate::process::{
    next_index, previous_index, ranked, selected, set_process_section, Process, ProcessRecord,
    SortBy,
};
use crate::window::{counted, pushed, CounterWindow, Window, WindowError};
use vstd::prelude::*;

verus! {

/// The windows of the free shares of memory and swap.
#[derive(Debug)]
pub struct Memory {
    pub memory_queue: Window,
    pub swap_queue: Window,
}

/// The windows of the bytes received and transmitted.
#[derive(Debug)]
pub struct Network {
    pub rx_queue: CounterWindow,
    pub tx_queue: CounterWindow,
}

/// One reading of the host, category by category. A category that could not
/// be read is `None`.
#[derive(Debug)]
pub struct Reading {
    /// The utilisation of each core, in hundredths of a percent.
    pub processors: Option<Vec<u32>>,
    /// Free and total memory.
    pub memory: Option<(u64, u64)>,
    /// Free and total swap.
    pub swap: Option<(u64, u64)>,
    pub disks: Option<Vec<Disk>>,
    /// The bytes received and transmitted by each interface.
    pub networks: Option<Vec<(u64, u64)>>,
    /// One line of the form `label: reading` for each temperature sensor.
    pub components: Option<Vec<String>>,
    pub processes: Option<Vec<ProcessRecord>>,
}

/// The dashboard state as plain values: what a renderer gets to see.
pub struct AppView {
    pub name: Seq<char>,
    pub temps: Seq<Seq<Seq<char>>>,
    pub disk_usage: Seq<Seq<Seq<char>>>,
    pub should_quit: bool,
    /// The samples of each core's window.
    pub cpu: Seq<Seq<(u64, i128)>>,
    /// The capacity that all windows share.
    pub capacity: nat,
    pub memory: Seq<(u64, i128)>,
    pub swap: Seq<(u64, i128)>,
    pub received: Seq<u128>,
    pub transmitted: Seq<u128>,
    pub process_list: Seq<ProcessRecord>,
    pub active_index: usize,
    pub sort_by: SortBy,
}

/// The core windows after a reading of the cores' utilisation: each window
/// that has a reading gets its chart value pushed, the others stay.
pub open spec fn cpu_refreshed(cpu: Seq<Seq<(u64, i128)>>, capacity: nat, usage: Seq<u32>) -> Seq<
    Seq<(u64, i128)>,
> {
    Seq::new(
        cpu.len(),
        |i: int|
            if i < usage.len() {
                pushed(cpu[i], capacity, usage_chart_value(usage[i]) as i128)
            } else {
                cpu[i]
            },
    )
}

/// Whether `after` is the state that `reading` makes of `before`. Every
/// category that was read is replaced or pushed as a whole, from this one
/// reading; a category that was not read stays as it was, and so do the
/// cursor, the sort order, the quit flag and the name.
pub open spec fn refreshes(before: AppView, reading: Reading, after: AppView) -> bool {
    &&& after.name == before.name
    &&& after.should_quit == before.should_quit
    &&& after.capacity == before.capacity
    &&& after.active_index == before.active_index
    &&& after.sort_by == before.sort_by
    &&& after.temps == match reading.components {
        Some(lines) => sensor_rows(lines@),
        None => before.temps,
    }
    &&& after.disk_usage == match reading.disks {
        Some(disks) => disk_rows(disks@),
        None => before.disk_usage,
    }
    &&& after.cpu == match reading.processors {
        Some(usage) => cpu_refreshed(before.cpu, before.capacity, usage@),
        None => before.cpu,
    }
    &&& after.memory == match reading.memory {
        Some((free, total)) => pushed(
            before.memory,
            before.capacity,
            ratio(free as nat, total as nat, MEMORY_UNIT as nat) as i128,
        ),
        None => before.memory,
    }
    &&& after.swap == match reading.swap {
        Some((free, total)) => pushed(
            before.swap,
            before.capacity,
            ratio(free as nat, total as nat, SWAP_UNIT as nat) as i128,
        ),
        None => before.swap,
    }
    &&& after.received == match reading.networks {
        Some(interfaces) => counted(
            before.received,
            before.capacity,
            received_total(interfaces@) as u128,
        ),
        None => before.received,
    }
    &&& after.transmitted == match reading.networks {
        Some(interfaces) => counted(
            before.transmitted,
            before.capacity,
            transmitted_total(interfaces@) as u128,
        ),
        None => before.transmitted,
    }
    &&& match reading.processes {
        Some(records) => ranked(records@, after.process_list, before.sort_by),
        None => after.process_list == before.process_list,
    }
}

/// The state of a dashboard that has seen no reading yet: empty windows, one
/// for each core, tables of one empty row, an empty process list ranked by
/// bytes written, the cursor at its start.
pub open spec fn fresh(name: Seq<char>, capacity: nat, cores: nat) -> AppView {
    AppView {
        name,
        temps: seq![Seq::<Seq<char>>::empty()],
        disk_usage: seq![Seq::<Seq<char>>::empty()],
        should_quit: false,
        cpu: Seq::new(cores, |i: int| Seq::<(u64, i128)>::empty()),
        capacity,
        memory: Seq::empty(),
        swap: Seq::empty(),
        received: Seq::empty(),
        transmitted: Seq::empty(),
        process_list: Seq::empty(),
        active_index: 0,
        sort_by: SortBy::MEMORY,
    }
}

/// The state of the dashboard. It owns every window and table; a renderer
/// reads it between two events and never while one is handled.
#[derive(Debug)]
pub struct App {
    name: String,
    temps: Vec<Vec<String>>,
    disk_usage: Vec<Vec<String>>,
    should_quit: bool,
    cpu_usage_queue: Vec<Window>,
    max_capacity_queue: usize,
    memory: Memory,
    network: Network,
    process: Process,
}

impl View for App {
    type V = AppView;

    closed spec fn view(&self) -> AppView {
        AppView {
            name: self.name@,
            temps: self.temps.deep_view(),
            disk_usage: self.disk_usage.deep_view(),
            should_quit: self.should_quit,
            cpu: Seq::new(self.cpu_usage_queue@.len(), |i: int| self.cpu_usage_queue@[i]@),
            capacity: self.max_capacity_queue as nat,
            memory: self.memory.memory_queue@,
            swap: self.memory.swap_queue@,
            received: self.network.rx_queue@,
            transmitted: self.network.tx_queue@,
            process_list: self.process.process_list@,
            active_index: self.process.active_index,
            sort_by: self.process.sort_by,
        }
    }
}

impl App {
    /// The invariant of the state: every window is well formed and has the
    /// shared capacity.
    pub closed spec fn wf(&self) -> bool {
        &&& forall|i: int|
            0 <= i < self.cpu_usage_queue@.len() ==> (#[trigger] self.cpu_usage_queue@[i]).wf()
                && self.cpu_usage_queue@[i].limit() == self.max_capacity_queue
        &&& self.memory.memory_queue.wf()
        &&& self.memory.memory_queue.limit() == self.max_capacity_queue
        &&& self.memory.swap_queue.wf()
        &&& self.memory.swap_queue.limit() == self.max_capacity_queue
        &&& self.network.rx_queue.wf()
        &&& self.network.rx_queue.limit() == self.max_capacity_queue
        &&& self.network.tx_queue.wf()
        &&& self.network.tx_queue.limit() == self.max_capacity_queue
    }

    /// A dashboard with empty windows of the given capacity, one for each of
    /// `cores` cores, with tables of one empty row, an empty process list
    /// ranked by bytes written, and the cursor at its start. The capacity is
    /// rejected as a window rejects it.
    pub fn new(name: &str, max_capacity_queue: usize, cores: usize) -> (r: Result<
        App,
        WindowError,
    >)
        ensures
            match r {
                Ok(app) => {
                    &&& 0 < max_capacity_queue <= MAX_CAPACITY
                    &&& app.wf()
                    &&& app@ == fresh(name@, max_capacity_queue as nat, cores as nat)
                },
                Err(WindowError::ZeroCapacity) => max_capacity_queue == 0,
                Err(WindowError::CapacityTooLarge) => max_capacity_queue > MAX_CAPACITY,
            },
    {
        let memory_queue = match Window::with_capacity(max_capacity_queue) {
            Ok(w) => w,
            Err(e) => {
                return Err(e);
            },
        };
        let swap_queue = match Window::with_capacity(max_capacity_queue) {
            Ok(w) => w,
            Err(e) => {
                return Err(e);
            },
        };
        let rx_queue = match CounterWindow::with_capacity(max_capacity_queue) {
            Ok(w) => w,
            Err(e) => {
                return Err(e);
            },
        };
        let tx_queue = match CounterWindow::with_capacity(max_capacity_queue) {
            Ok(w) => w,
            Err(e) => {
                return Err(e);
            },
        };
        let mut cpu_usage_queue: Vec<Window> = Vec::new();
        let mut i: usize = 0;
        while i < cores
            invariant
                i <= cores,
                0 < max_capacity_queue <= MAX_CAPACITY,
                cpu_usage_queue@.len() == i,
                forall|k: int|
                    0 <= k < i ==> (#[trigger] cpu_usage_queue@[k]).wf() && cpu_usage_queue@[k].limit()
                        == max_capacity_queue && cpu_usage_queue@[k]@ == Seq::<
                        (u64, i128),
                    >::empty(),
            decreases cores - i,
        {
            match Window::with_capacity(max_capacity_queue) {
                Ok(w) => {
                    cpu_usage_queue.push(w);
                },
                Err(e) => {
                    return Err(e);
                },
            }
            i += 1;
        }
        let mut temps: Vec<Vec<String>> = Vec::new();
        temps.push(Vec::new());
        let mut disk_usage: Vec<Vec<String>> = Vec::new();
        disk_usage.push(Vec::new());
        let app = App {
            name: name.to_owned(),
            temps,
            disk_usage,
            should_quit: false,
            cpu_usage_queue,
            max_capacity_queue,
            memory: Memory { memory_queue, swap_queue },
            network: Network { rx_queue, tx_queue },
            process: Process::new(),
        };
        assert(app.temps@[0].deep_view() =~= Seq::<Seq<char>>::empty());
        assert(app.disk_usage@[0].deep_view() =~= Seq::<Seq<char>>::empty());
        assert(app@.temps =~= seq![Seq::<Seq<char>>::empty()]);
        assert(app@.disk_usage =~= seq![Seq::<Seq<char>>::empty()]);
        assert(app@.cpu =~= Seq::new(cores as nat, |i: int| Seq::<(u64, i128)>::empty()));
        Ok(app)
    }

    /// Pushes a chart value into a window, with the variant that fits its
    /// fill.
    pub fn calculate_new_queue_disk(val: i128, queue: &mut Window)
        requires
            old(queue).wf(),
        ensures
            final(queue).wf(),
            final(queue).limit() == old(queue).limit(),
            final(queue)@ == pushed(old(queue)@, old(queue).limit(), val),
    {
        queue.push(val);
    }

    /// Pushes the chart value of a core's utilisation, given in hundredths
    /// of a percent, into the window of core `i`.
    pub fn calculate_new_queue_processor(&mut self, usage: u32, i: usize)
        requires
            old(self).wf(),
            i < old(self)@.cpu.len(),
        ensures
            final(self).wf(),
            final(self)@ == (AppView {
                cpu: old(self)@.cpu.update(
                    i as int,
                    pushed(
                        old(self)@.cpu[i as int],
                        old(self)@.capacity,
                        usage_chart_value(usage) as i128,
                    ),
                ),
                ..old(self)@
            }),
    {
        let value = cpu_chart_value(usage);
        self.cpu_usage_queue[i].push(value);
        assert(final(self)@.cpu =~= old(self)@.cpu.update(
            i as int,
            pushed(old(self)@.cpu[i as int], old(self)@.capacity, usage_chart_value(usage) as i128),
        ));
    }

    /// Applies one reading of the host. The tables and the ranking are
    /// worked out first; only then is the state changed, so that what a
    /// renderer sees afterwards comes from this reading in every category
    /// that was read.
    pub fn refresh(&mut self, reading: Reading)
        requires
            old(self).wf(),
        ensures
            final(self).wf(),
            refreshes(old(self)@, reading, final(self)@),
    {
        let Reading { processors, memory, swap, disks, networks, components, processes } = reading;
        let temps = match components {
            Some(lines) => Some(set_temp_section(&lines)),
            None => None,
        };
        let disk_usage = match disks {
            Some(volumes) => Some(set_disk_section(&volumes)),
            None => None,
        };
        let network_values = match networks {
            Some(interfaces) => Some(set_network_section(&interfaces)),
            None => None,
        };
        let process_list = match processes {
            Some(records) => Some(set_process_section(records, self.process.sort_by)),
            None => None,
        };

        if let Some(usage) = processors {
            let cores: usize = self.cpu_usage_queue.len();
            let mut i: usize = 0;
            assert(self@.cpu =~= cpu_refreshed(
                old(self)@.cpu,
                old(self)@.capacity,
                usage@.take(0),
            ));
            while i < cores && i < usage.len()
                invariant
                    self.wf(),
                    cores == old(self)@.cpu.len(),
                    i <= cores,
                    i <= usage@.len(),
                    self@ == (AppView {
                        cpu: cpu_refreshed(
                            old(self)@.cpu,
                            old(self)@.capacity,
                            usage@.take(i as int),
                        ),
                        ..old(self)@
                    }),
                decreases cores - i,
            {
                self.calculate_new_queue_processor(usage[i], i);
                assert(self@.cpu =~= cpu_refreshed(
                    old(self)@.cpu,
                    old(self)@.capacity,
                    usage@.take(i + 1),
                ));
                i += 1;
            }
            assert(self@.cpu =~= cpu_refreshed(old(self)@.cpu, old(self)@.capacity, usage@));
        }
        if let Some((free, total)) = memory {
            App::calculate_new_queue_disk(
                free_ratio(free, total, MEMORY_UNIT),
                &mut self.memory.memory_queue,
            );
        }
        if let Some((free, total)) = swap {
            App::calculate_new_queue_disk(
                free_ratio(free, total, SWAP_UNIT),
                &mut self.memory.swap_queue,
            );
        }
        if let Some(rows) = temps {
            self.temps = rows;
        }
        if let Some(rows) = disk_usage {
            self.disk_usage = rows;
        }
        if let Some((rx, tx)) = network_values {
            self.network.rx_queue.push(rx);
            self.network.tx_queue.push(tx);
        }
        if let Some(list) = process_list {
            self.process.process_list = list;
        }
    }

    /// Asks the control loop to stop after the event at hand.
    pub fn quit(&mut self)
        requires
            old(self).wf(),
        ensures
            final(self).wf(),
            final(self)@ == (AppView { should_quit: true, ..old(self)@ }),
    {
        self.should_quit = true;
    }

    /// Moves the cursor one step towards the start of the process list, but
    /// never onto its first record.
    pub fn decrease_index(&mut self)
        requires
            old(self).wf(),
        ensures
            final(self).wf(),
            final(self)@ == (AppView {
                active_index: previous_index(old(self)@.active_index),
                ..old(self)@
            }),
    {
        self.process.select_previous();
    }

    /// Moves the cursor one step towards the end of the process list, but
    /// never past its last record.
    pub fn increase_index(&mut self)
        requires
            old(self).wf(),
        ensures
            final(self).wf(),
            final(self)@ == (AppView {
                active_index: next_index(
                    old(self)@.active_index,
                    old(self)@.process_list.len(),
                ),
                ..old(self)@
            }),
    {
        self.process.select_next();
    }

    /// The process to terminate when a kill is confirmed: the one under the
    /// cursor in the list of the last reading. Where the cursor points
    /// beyond that list there is none, and the request comes to nothing.
    pub fn kill(&self) -> (pid: Option<i32>)
        ensures
            pid == selected(self@.process_list, self@.active_index),
    {
        self.process.selected_pid()
    }

    /// Sets the order that the process list is ranked by. The list at hand
    /// stays as it is; the next reading is ranked by the new order.
    pub fn set_sort_by(&mut self, sort_by: SortBy)
        requires
            old(self).wf(),
        ensures
            final(self).wf(),
            final(self)@ == (AppView { sort_by, ..old(self)@ }),
    {
        self.process.sort_by = sort_by;
    }

    /// The name the dashboard was made with.
    pub fn name(&self) -> (name: &String)
        ensures
            name@ == self@.name,
    {
        &self.name
    }

    /// The temperature table: one row of name and reading for each sensor.
    pub fn temps(&self) -> (rows: &Vec<Vec<String>>)
        ensures
            rows.deep_view() == self@.temps,
    {
        &self.temps
    }

    /// The disk table: one row of name, mount point and free space for each
    /// volume.
    pub fn disk_usage(&self) -> (rows: &Vec<Vec<String>>)
        ensures
            rows.deep_view() == self@.disk_usage,
    {
        &self.disk_usage
    }

    /// Whether the control loop was asked to stop.
    pub fn should_quit(&self) -> (flag: bool)
        ensures
            flag == self@.should_quit,
    {
        self.should_quit
    }

    /// The windows of the cores, one each.
    pub fn cpu_usage_queue(&self) -> (windows: &Vec<Window>)
        ensures
            windows@.len() == self@.cpu.len(),
            forall|i: int| 0 <= i < windows@.len() ==> (#[trigger] windows@[i])@ == self@.cpu[i],
            self.wf() ==> forall|i: int|
                0 <= i < windows@.len() ==> (#[trigger] windows@[i]).wf() && windows@[i].limit()
                    == self@.capacity,
    {
        &self.cpu_usage_queue
    }

    /// The samples of the window of core `i`, ready to be charted.
    pub fn cpu_usage_points(&self, i: usize) -> (points: Option<&Vec<(u64, i128)>>)
        ensures
            i >= self@.cpu.len() <==> points is None,
            points matches Some(samples) ==> samples@ == self@.cpu[i as int],
    {
        if i < self.cpu_usage_queue.len() {
            Some(self.cpu_usage_queue[i].snapshot())
        } else {
            None
        }
    }

    /// The capacity that all windows share.
    pub fn max_capacity_queue(&self) -> (capacity: usize)
        ensures
            capacity == self@.capacity,
    {
        self.max_capacity_queue
    }

    /// The windows of memory and swap.
    pub fn memory(&self) -> (memory: &Memory)
        ensures
            memory.memory_queue@ == self@.memory,
            memory.swap_queue@ == self@.swap,
            self.wf() ==> memory.memory_queue.wf() && memory.swap_queue.wf(),
            self.wf() ==> memory.memory_queue.limit() == self@.capacity
                && memory.swap_queue.limit() == self@.capacity,
    {
        &self.memory
    }

    /// The windows of the network counters.
    pub fn network(&self) -> (network: &Network)
        ensures
            network.rx_queue@ == self@.received,
            network.tx_queue@ == self@.transmitted,
            self.wf() ==> network.rx_queue.wf() && network.tx_queue.wf(),
            self.wf() ==> network.rx_queue.limit() == self@.capacity && network.tx_queue.limit()
                == self@.capacity,
    {
        &self.network
    }

    /// The process list, its cursor and the sort order.
    pub fn process(&self) -> (process: &Process)
        ensures
            process.process_list@ == self@.process_list,
            process.active_index == self@.active_index,
            process.sort_by == self@.sort_by,
    {
        &self.process
    }
}

/// One reading makes one state: two states that the same reading makes of
/// the same state before are equal. What is seen after a refresh is thus
/// fixed by the state before and the reading, in every slot.
pub proof fn lemma_refresh_determined(
    before: AppView,
    reading: Reading,
    first: AppView,
    second: AppView,
)
    requires
        refreshes(before, reading, first),
        refreshes(before, reading, second),
    ensures
        first == second,
{
    if let Some(records) = reading.processes {
        crate::process::lemma_ranked_unique(
            records@,
            first.process_list,
            second.process_list,
            before.sort_by,
        );
    }
}

/// A reading in which no category was read changes nothing.
pub proof fn lemma_empty_reading_changes_nothing(before: AppView, reading: Reading, after: AppView)
    requires
        refreshes(before, reading, after),
        reading.processors is None,
        reading.memory is None,
        reading.swap is None,
        reading.disks is None,
        reading.networks is None,
        reading.components is None,
        reading.processes is None,
    ensures
        after == before,
{
}

/// Whether every category of a reading was read, with a utilisation for
/// each of `cores` cores.
pub open spec fn complete(reading: Reading, cores: nat) -> bool {
    &&& reading.processors matches Some(usage) && usage@.len() >= cores
    &&& reading.memory is Some
    &&& reading.swap is Some
    &&& reading.disks is Some
    &&& reading.networks is Some
    &&& reading.components is Some
    &&& reading.processes is Some
}

/// A complete reading renews every slot: each window of a core, of memory,
/// of swap and of the two network counters has got exactly one push, worked
/// out from this reading, and the two tables and the process list are those
/// of this reading. Nothing seen after the refresh is left over from the
/// reading before.
pub proof fn lemma_complete_reading_renews_every_slot(
    before: AppView,
    reading: Reading,
    after: AppView,
)
    requires
        refreshes(before, reading, after),
        complete(reading, before.cpu.len()),
    ensures
        after.cpu.len() == before.cpu.len(),
        forall|i: int|
            0 <= i < before.cpu.len() ==> #[trigger] after.cpu[i] == pushed(
                before.cpu[i],
                before.capacity,
                usage_chart_value(reading.processors->0@[i]) as i128,
            ),
        reading.memory matches Some(memory) && after.memory == pushed(
            before.memory,
            before.capacity,
            ratio(memory.0 as nat, memory.1 as nat, MEMORY_UNIT as nat) as i128,
        ),
        reading.swap matches Some(swap) && after.swap == pushed(
            before.swap,
            before.capacity,
            ratio(swap.0 as nat, swap.1 as nat, SWAP_UNIT as nat) as i128,
        ),
        after.received == counted(
            before.received,
            before.capacity,
            received_total(reading.networks->0@) as u128,
        ),
        after.transmitted == counted(
            before.transmitted,
            before.capacity,
            transmitted_total(reading.networks->0@) as u128,
        ),
        after.temps == sensor_rows(reading.components->0@),
        after.disk_usage == disk_rows(reading.disks->0@),
        ranked(reading.processes->0@, after.process_list, before.sort_by),
{
}

} // verus!
