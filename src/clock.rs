use vstd::prelude::*;

use crate::memory::{
    lemma_requests_kept_trans, requests_kept, tima_edge, BusView, Memory, DIV_ADDRESS,
    INTERRUPT_FLAG_ADDRESS, TIMA_ADDRESS, TMA_ADDRESS,
};

verus! {

/// One T-cycle of the timer: the divider counts up; a pending reload
/// counts down and, when it ends, loads TMA into TIMA and requests the
/// timer interrupt; a falling edge of the timer signal (TAC enable AND the
/// selected divider bit) increments TIMA, and an overflow leaves TIMA at 0
/// for the reload delay.
pub open spec fn timer_cycle(m: BusView) -> BusView {
    let m1 = BusView { counter: ((m.counter + 1) % 65536) as u16, ..m };
    let m2 = if m.reload == 1 {
        BusView {
            ram: m1.ram.update(TIMA_ADDRESS as int, m1.ram[TMA_ADDRESS as int]).update(
                INTERRUPT_FLAG_ADDRESS as int,
                m1.ram[INTERRUPT_FLAG_ADDRESS as int] | 0x04,
            ),
            reload: 0,
            ..m1
        }
    } else if m.reload > 1 {
        BusView { reload: (m.reload - 1) as u8, ..m1 }
    } else {
        m1
    };
    tima_edge(BusView { counter: m.counter, ..m2 }, m2)
}

/// The timer after `n` T-cycles.
pub open spec fn timer_run(m: BusView, n: nat) -> BusView
    decreases n,
{
    if n == 0 {
        m
    } else {
        timer_cycle(timer_run(m, (n - 1) as nat))
    }
}

/// The timer changed nothing on the bus but the divider, TIMA and IF.
pub open spec fn timer_frame(m0: BusView, m1: BusView) -> bool {
    &&& m1.ram.len() == m0.ram.len()
    &&& m1.dma == m0.dma
    &&& m1.buttons == m0.buttons
    &&& m1.boot == m0.boot
    &&& m1.boot_active == m0.boot_active
    &&& forall|k: int|
        0 <= k < m0.ram.len() && k != TIMA_ADDRESS && k != INTERRUPT_FLAG_ADDRESS
            ==> #[trigger] m1.ram[k] == m0.ram[k]
}

proof fn lemma_timer_cycle_kept(m: BusView)
    requires
        m.wf(),
    ensures
        requests_kept(
            m.ram[INTERRUPT_FLAG_ADDRESS as int],
            timer_cycle(m).ram[INTERRUPT_FLAG_ADDRESS as int],
        ),
{
    let b = m.ram[INTERRUPT_FLAG_ADDRESS as int];
    assert(b & b == b) by (bit_vector);
    assert(b & (b | 4) == b) by (bit_vector);
}

/// Over `n` T-cycles the divider counts `n` and only TIMA and IF change.
pub proof fn lemma_timer_run(m: BusView, n: nat)
    requires
        m.wf(),
    ensures
        timer_frame(m, timer_run(m, n)),
        timer_run(m, n).counter == (m.counter + n) % 65536,
        timer_run(m, n).wf(),
        requests_kept(
            m.ram[INTERRUPT_FLAG_ADDRESS as int],
            timer_run(m, n).ram[INTERRUPT_FLAG_ADDRESS as int],
        ),
    decreases n,
{
    if n == 0 {
        let a = m.ram[INTERRUPT_FLAG_ADDRESS as int];
        assert(a & a == a) by (bit_vector);
    } else {
        lemma_timer_run(m, (n - 1) as nat);
        let m1 = timer_run(m, (n - 1) as nat);
        lemma_timer_cycle_kept(m1);
        lemma_requests_kept_trans(
            m.ram[INTERRUPT_FLAG_ADDRESS as int],
            m1.ram[INTERRUPT_FLAG_ADDRESS as int],
            timer_run(m, n).ram[INTERRUPT_FLAG_ADDRESS as int],
        );
    }
}

/// Divider and timer (DIV, TIMA, TMA, TAC); their state lives on the bus,
/// where writes to DIV and TAC take part in it too.
pub struct Clock {}

impl Clock {
    pub fn new() -> (r: Self) {
        Clock {}
    }

    fn cycle(&mut self, memory: &mut Memory)
        requires
            old(memory).wf(),
        ensures
            final(memory).wf(),
            final(memory)@ == timer_cycle(old(memory)@),
    {
        let before = memory.timer_signal();
        let counter = memory.div_counter();
        memory.set_div_counter(counter.wrapping_add(1));
        let reload = memory.reload();
        if reload == 1 {
            let tma = memory.read_raw(TMA_ADDRESS);
            memory.write_raw(TIMA_ADDRESS, tma);
            let iflag = memory.read_raw(INTERRUPT_FLAG_ADDRESS);
            memory.write_raw(INTERRUPT_FLAG_ADDRESS, iflag | 0x04);
            memory.set_reload(0);
        } else if reload > 1 {
            memory.set_reload(reload - 1);
        }
        if before && !memory.timer_signal() {
            memory.tick_tima();
        }
    }

    /// Advance the divider and timer by `cycles` T-cycles.
    pub fn tick(&mut self, cycles: u8, memory: &mut Memory)
        requires
            old(memory).wf(),
        ensures
            final(memory).wf(),
            final(memory)@ == timer_run(old(memory)@, cycles as nat),
            timer_frame(old(memory)@, final(memory)@),
            final(memory)@.counter == (old(memory)@.counter + cycles) % 65536,
            requests_kept(
                old(memory)@.ram[INTERRUPT_FLAG_ADDRESS as int],
                final(memory)@.ram[INTERRUPT_FLAG_ADDRESS as int],
            ),
    {
        proof {
            lemma_timer_run(old(memory)@, cycles as nat);
        }
        let mut i: u8 = 0;
        while i < cycles
            invariant
                i <= cycles,
                memory.wf(),
                memory@ == timer_run(old(memory)@, i as nat),
            decreases cycles - i,
        {
            self.cycle(memory);
            i = i + 1;
        }
    }
}

/// After a write to DIV, DIV reads 0 until 256 T-cycles have passed (outside
/// an OAM DMA, during which reads outside HRAM return 0xFF).
pub proof fn lemma_div_reads_zero_after_write(m: BusView, v: u8, n: nat)
    requires
        m.wf(),
        m.dma == 0,
        n < 256,
    ensures
        timer_run(m.write(DIV_ADDRESS, v), n).read(DIV_ADDRESS) == 0,
{
    reveal(BusView::write);
    reveal(BusView::read);
    reveal(BusView::peek);
    lemma_timer_run(m.write(DIV_ADDRESS, v), n);
}

} // verus!
